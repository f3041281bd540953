//! The per-request import context: the state a sandbox instance carries
//! while guest code runs. It accumulates named output tables and log
//! lines, and remembers the session coordinates (namespace, token, epoch)
//! that host calls are scoped to.

use vstd::prelude::*;

use crate::codec::{cols_view, encode_table, spec_enc_columns, spec_enc_headers, DataFrame};
use crate::value::{Column, LogLevel, NamedColumn, NamedValue, NamedValueView, ValueKind,
    ValueView};

verus! {

/// One accumulated output table: a label and its named columns in
/// insertion order, keys unique.
#[derive(Clone, Debug, PartialEq)]
pub struct OutputTable {
    pub name: String,
    pub cols: Vec<NamedColumn>,
}

/// One captured guest log line.
#[derive(Clone, Debug, PartialEq)]
pub struct LogLine {
    pub level: LogLevel,
    pub message: String,
}

/// A guest handle to one output table: the table's position and the
/// default row it was created with (deduplicated, last value per key).
#[derive(Debug)]
pub struct ReturnTable {
    pub index: usize,
    pub defaults: Vec<NamedValue>,
}

/// A guest handle to the backing store; it carries no state of its own.
#[derive(Debug)]
pub struct StorageCache {}

/// The import context of one sandbox instance.
#[derive(Debug)]
pub struct Storage {
    pub space_name: String,
    pub epoch: u64,
    pub token: String,
    pub return_tables: Vec<OutputTable>,
    pub start_time_ms: i64,
    pub counter: u64,
    pub log_floor: LogLevel,
    pub logs: Vec<LogLine>,
}

/// The sequence of models of a vector of named cells.
pub open spec fn row_view(s: Seq<NamedValue>) -> Seq<NamedValueView> {
    Seq::new(s.len(), |i: int| s[i]@)
}

/// The first index in `s` holding `key`, or -1.
pub open spec fn spec_find_key(s: Seq<NamedValueView>, key: Seq<char>) -> int
    decreases s.len(),
{
    if s.len() == 0 {
        -1
    } else if s[0].key == key {
        0
    } else {
        let r = spec_find_key(s.drop_first(), key);
        if r < 0 {
            -1
        } else {
            r + 1
        }
    }
}

/// `spec_find_key` returns exactly the first match.
proof fn lemma_find_key_at(s: Seq<NamedValueView>, key: Seq<char>, p: int)
    requires
        0 <= p < s.len(),
        s[p].key == key,
        forall|j: int| 0 <= j < p ==> s[j].key != key,
    ensures
        spec_find_key(s, key) == p,
    decreases s.len(),
{
    if p > 0 {
        assert forall|j: int| 0 <= j < p - 1 implies s.drop_first()[j].key != key by {
            assert(s.drop_first()[j] == s[j + 1]);
        }
        assert(s.drop_first()[p - 1] == s[p]);
        lemma_find_key_at(s.drop_first(), key, p - 1);
    }
}

/// `spec_find_key` misses only when no entry holds the key.
proof fn lemma_find_key_none(s: Seq<NamedValueView>, key: Seq<char>)
    requires
        forall|j: int| 0 <= j < s.len() ==> s[j].key != key,
    ensures
        spec_find_key(s, key) == -1,
    decreases s.len(),
{
    if s.len() > 0 {
        assert forall|j: int| 0 <= j < s.drop_first().len() implies s.drop_first()[j].key
            != key by {
            assert(s.drop_first()[j] == s[j + 1]);
        }
        lemma_find_key_none(s.drop_first(), key);
    }
}

/// Deduplicates a default row: each key keeps its first position and its
/// last value, as a map built from the row would.
pub open spec fn spec_dedup(s: Seq<NamedValueView>) -> Seq<NamedValueView>
    decreases s.len(),
{
    if s.len() == 0 {
        Seq::empty()
    } else {
        let d = spec_dedup(s.drop_last());
        let i = spec_find_key(d, s.last().key);
        if i >= 0 {
            d.update(i, NamedValueView { key: d[i].key, val: s.last().val })
        } else {
            d.push(s.last())
        }
    }
}

/// The value the row supplies for `key`: its last occurrence, if any.
pub open spec fn spec_row_lookup(row: Seq<NamedValueView>, key: Seq<char>) -> Option<ValueView>
    decreases row.len(),
{
    if row.len() == 0 {
        Option::None
    } else if row.last().key == key {
        Option::Some(row.last().val)
    } else {
        spec_row_lookup(row.drop_last(), key)
    }
}

/// The cells of one column after a row is pushed: the row's value for the
/// column's key, or the column's default; appended only when its kind
/// matches the column's, so a mismatched or absent kind leaves the column
/// short rather than failing.
pub open spec fn spec_push_cells(
    kind: ValueKind,
    cells: Seq<ValueView>,
    key: Seq<char>,
    row: Seq<NamedValueView>,
    default: ValueView,
) -> Seq<ValueView> {
    let chosen = match spec_row_lookup(row, key) {
        Option::Some(v) => v,
        Option::None => default,
    };
    if chosen.kind() == kind && kind != ValueKind::Nil {
        cells.push(chosen)
    } else {
        cells
    }
}

/// A table handle is aligned with its table: one default per column, same
/// keys, same kinds.
pub open spec fn table_matches_defaults(cols: Seq<NamedColumn>, defs: Seq<NamedValue>) -> bool {
    &&& cols.len() == defs.len()
    &&& forall|i: int|
        #![trigger cols[i], defs[i]]
        0 <= i < cols.len() ==> cols[i]@.key == defs[i]@.key && cols[i]@.val.kind
            == defs[i]@.val.kind()
}

/// Validity of a handle against a context: if the handle points at an
/// existing table, the handle's defaults are aligned with that table.
pub open spec fn rt_valid(rt: ReturnTable, st: Storage) -> bool {
    rt.index < st.return_tables@.len() ==> table_matches_defaults(
        st.return_tables@[rt.index as int].cols@,
        rt.defaults@,
    )
}

/// Replaces the element at `i`, keeping every other element in place.
fn vec_replace<T>(v: &mut Vec<T>, i: usize, x: T)
    requires
        i < old(v).len(),
    ensures
        final(v)@ == old(v)@.update(i as int, x),
{
    v.remove(i);
    v.insert(i, x);
    proof {
        assert(v@ =~= old(v)@.update(i as int, x));
    }
}

impl Storage {
    /// A fresh import context for one request, scoped to a session's
    /// namespace, token and current epoch.
    pub fn new(
        space_name: String,
        epoch: u64,
        token: String,
        start_time_ms: i64,
        log_floor: LogLevel,
    ) -> (st: Storage)
        ensures
            st.space_name == space_name,
            st.epoch == epoch,
            st.token == token,
            st.start_time_ms == start_time_ms,
            st.log_floor == log_floor,
            st.return_tables@.len() == 0,
            st.logs@.len() == 0,
            st.counter == 0,
    {
        Storage {
            space_name,
            epoch,
            token,
            return_tables: Vec::new(),
            start_time_ms,
            counter: 0,
            log_floor,
            logs: Vec::new(),
        }
    }

    /// Opens a new named output table from a default row. Duplicate keys
    /// in the default row collapse to one column (last value wins); each
    /// column starts empty with the kind of its default.
    pub fn data_frame_new(&mut self, name: &str, default: &Vec<NamedValue>) -> (r: Option<
        ReturnTable,
    >)
        ensures
            r is Some,
            r matches Option::Some(rt) ==> rt.index == old(self).return_tables@.len() && row_view(
                rt.defaults@,
            ) == spec_dedup(row_view(default@)) && rt_valid(rt, *final(self)),
            final(self).return_tables@.len() == old(self).return_tables@.len() + 1,
            forall|t: int|
                #![trigger final(self).return_tables@[t]]
                0 <= t < old(self).return_tables@.len() ==> final(self).return_tables@[t]
                    == old(self).return_tables@[t],
            final(self).return_tables@.last().name@ == name@,
            ({
                let cols = final(self).return_tables@.last().cols@;
                let dd = spec_dedup(row_view(default@));
                &&& cols.len() == dd.len()
                &&& forall|i: int|
                    #![trigger cols[i]]
                    0 <= i < cols.len() ==> cols[i]@.key == dd[i].key && cols[i]@.val.kind
                        == dd[i].val.kind() && cols[i]@.val.cells.len() == 0
            }),
            final(self).space_name == old(self).space_name,
            final(self).epoch == old(self).epoch,
            final(self).token == old(self).token,
            final(self).start_time_ms == old(self).start_time_ms,
            final(self).counter == old(self).counter,
            final(self).log_floor == old(self).log_floor,
            final(self).logs == old(self).logs,
    {
        let mut dd: Vec<NamedValue> = Vec::new();
        let mut i: usize = 0;
        while i < default.len()
            invariant
                i <= default.len(),
                row_view(dd@) == spec_dedup(row_view(default@).take(i as int)),
            decreases default.len() - i,
        {
            proof {
                assert(row_view(default@).take(i + 1).drop_last() =~= row_view(default@).take(
                    i as int,
                ));
                assert(row_view(default@).take(i + 1).last() == default@[i as int]@);
            }
            let item = &default[i];
            let mut pos: usize = 0;
            let mut found: bool = false;
            while pos < dd.len() && !found
                invariant
                    pos <= dd.len(),
                    forall|j: int| 0 <= j < pos ==> row_view(dd@)[j].key != item@.key,
                    found ==> pos < dd.len() && row_view(dd@)[pos as int].key == item@.key,
                decreases dd.len() - pos + if found {
                    0int
                } else {
                    1int
                },
            {
                if dd[pos].key == item.key {
                    found = true;
                } else {
                    pos = pos + 1;
                }
            }
            proof {
                if found {
                    lemma_find_key_at(row_view(dd@), item@.key, pos as int);
                } else {
                    lemma_find_key_none(row_view(dd@), item@.key);
                }
            }
            if found {
                let old_key = dd[pos].key.clone();
                vec_replace(&mut dd, pos, NamedValue { key: old_key, val: item.val.duplicate() });
                proof {
                    assert(row_view(dd@) =~= spec_dedup(row_view(default@).take(i + 1)));
                }
            } else {
                dd.push(item.duplicate());
                proof {
                    assert(row_view(dd@) =~= spec_dedup(row_view(default@).take(i + 1)));
                }
            }
            i = i + 1;
        }
        proof {
            assert(row_view(default@).take(default@.len() as int) =~= row_view(default@));
        }
        let mut cols: Vec<NamedColumn> = Vec::new();
        let mut c: usize = 0;
        while c < dd.len()
            invariant
                c <= dd.len(),
                cols@.len() == c,
                forall|j: int|
                    #![trigger cols@[j]]
                    0 <= j < c ==> cols@[j]@.key == row_view(dd@)[j].key && cols@[j]@.val.kind
                        == row_view(dd@)[j].val.kind() && cols@[j]@.val.cells.len() == 0,
            decreases dd.len() - c,
        {
            let key = dd[c].key.clone();
            let col = Column::empty_like(&dd[c].val);
            cols.push(NamedColumn { key, val: col });
            proof {
                assert(cols@[c as int]@.key == row_view(dd@)[c as int].key);
                assert(cols@[c as int]@.val.kind == row_view(dd@)[c as int].val.kind());
                assert(cols@[c as int]@.val.cells.len() == 0);
            }
            c = c + 1;
        }
        let index = self.return_tables.len();
        self.return_tables.push(OutputTable { name: String::from_str(name), cols });
        Some(ReturnTable { index, defaults: dd })
    }

    /// Pushes one row into an output table. Per column, the row's value
    /// for the column's key (last occurrence wins) or the column's default
    /// is appended when its kind matches the column's; otherwise that
    /// column is left unchanged. Fails only on a handle to no table.
    pub fn data_frame_push(&mut self, rt: &ReturnTable, row: &Vec<NamedValue>) -> (r: Option<u64>)
        requires
            rt_valid(*rt, *old(self)),
        ensures
            r matches Option::Some(z) ==> z == 0,
            (r is Some) <==> rt.index < old(self).return_tables@.len(),
            rt.index >= old(self).return_tables@.len() ==> *final(self) == *old(self),
            rt.index < old(self).return_tables@.len() ==> ({
                let tables = final(self).return_tables@;
                let old_tables = old(self).return_tables@;
                let t = rt.index as int;
                &&& tables.len() == old_tables.len()
                &&& forall|u: int|
                    #![trigger tables[u]]
                    0 <= u < tables.len() && u != t ==> tables[u] == old_tables[u]
                &&& tables[t].name == old_tables[t].name
                &&& tables[t].cols@.len() == old_tables[t].cols@.len()
                &&& forall|ci: int|
                    #![trigger tables[t].cols@[ci]]
                    0 <= ci < tables[t].cols@.len() ==> ({
                        let oc = old_tables[t].cols@[ci]@;
                        let nc = tables[t].cols@[ci]@;
                        &&& nc.key == oc.key
                        &&& nc.val.kind == oc.val.kind
                        &&& nc.val.cells == spec_push_cells(
                            oc.val.kind,
                            oc.val.cells,
                            oc.key,
                            row_view(row@),
                            rt.defaults@[ci]@.val,
                        )
                    })
            }),
            final(self).space_name == old(self).space_name,
            final(self).epoch == old(self).epoch,
            final(self).token == old(self).token,
            final(self).start_time_ms == old(self).start_time_ms,
            final(self).counter == old(self).counter,
            final(self).log_floor == old(self).log_floor,
            final(self).logs == old(self).logs,
            rt_valid(*rt, *final(self)),
    {
        if rt.index >= self.return_tables.len() {
            return None;
        }
        let tbl = self.return_tables.remove(rt.index);
        proof {
            assert(tbl == old(self).return_tables@[rt.index as int]);
            assert(table_matches_defaults(tbl.cols@, rt.defaults@));
        }
        let mut new_cols: Vec<NamedColumn> = Vec::new();
        let mut c: usize = 0;
        while c < tbl.cols.len()
            invariant
                c <= tbl.cols.len(),
                tbl.cols@.len() == rt.defaults@.len(),
                forall|i: int|
                    #![trigger tbl.cols@[i], rt.defaults@[i]]
                    0 <= i < tbl.cols@.len() ==> tbl.cols@[i]@.key == rt.defaults@[i]@.key
                        && tbl.cols@[i]@.val.kind == rt.defaults@[i]@.val.kind(),
                new_cols@.len() == c,
                forall|i: int|
                    #![trigger new_cols@[i]]
                    0 <= i < c ==> ({
                        let oc = tbl.cols@[i]@;
                        let nc = new_cols@[i]@;
                        &&& nc.key == oc.key
                        &&& nc.val.kind == oc.val.kind
                        &&& nc.val.cells == spec_push_cells(
                            oc.val.kind,
                            oc.val.cells,
                            oc.key,
                            row_view(row@),
                            rt.defaults@[i]@.val,
                        )
                    }),
            decreases tbl.cols.len() - c,
        {
            let key = tbl.cols[c].key.clone();
            let mut col = tbl.cols[c].val.duplicate();
            // Search the row backward: its last occurrence of the key wins.
            let mut j: usize = row.len();
            let mut taken: bool = false;
            proof {
                assert(row_view(row@).take(row@.len() as int) =~= row_view(row@));
            }
            while j > 0 && !taken
                invariant
                    j <= row.len(),
                    c < tbl.cols@.len(),
                    tbl.cols@.len() == rt.defaults@.len(),
                    key@ == tbl.cols@[c as int]@.key,
                    !taken ==> spec_row_lookup(row_view(row@), key@) == spec_row_lookup(
                        row_view(row@).take(j as int),
                        key@,
                    ),
                    !taken ==> col@ == tbl.cols@[c as int]@.val,
                    taken ==> ({
                        let oc = tbl.cols@[c as int]@;
                        &&& col@.kind == oc.val.kind
                        &&& col@.cells == spec_push_cells(
                            oc.val.kind,
                            oc.val.cells,
                            oc.key,
                            row_view(row@),
                            rt.defaults@[c as int]@.val,
                        )
                    }),
                decreases j + if taken {
                    0int
                } else {
                    1int
                },
            {
                proof {
                    assert(row_view(row@).take(j as int).drop_last() =~= row_view(row@).take(
                        j - 1,
                    ));
                    assert(row_view(row@).take(j as int).last() == row@[j - 1]@);
                }
                if row[j - 1].key == key {
                    col.push_value(&row[j - 1].val);
                    taken = true;
                } else {
                    j = j - 1;
                }
            }
            if !taken {
                proof {
                    assert(row_view(row@).take(0) =~= Seq::<NamedValueView>::empty());
                }
                col.push_value(&rt.defaults[c].val);
            }
            new_cols.push(NamedColumn { key, val: col });
            c = c + 1;
        }
        self.return_tables.insert(rt.index, OutputTable { name: tbl.name, cols: new_cols });
        proof {
            let t = rt.index as int;
            assert forall|u: int|
                #![trigger self.return_tables@[u]]
                0 <= u < self.return_tables@.len() && u != t implies self.return_tables@[u] == old(
                    self,
                ).return_tables@[u] by {
                if u < t {
                    assert(self.return_tables@[u] == old(self).return_tables@.remove(t)[u]);
                } else {
                    assert(self.return_tables@[u] == old(self).return_tables@.remove(t)[u - 1]);
                }
            }
        }
        Some(0)
    }

    /// The number of columns of an output table, or nothing for a handle
    /// to no table.
    pub fn data_frame_size(&self, rt: &ReturnTable) -> (r: Option<u64>)
        ensures
            r == if rt.index < self.return_tables@.len() {
                Option::Some(self.return_tables@[rt.index as int].cols@.len() as u64)
            } else {
                Option::<u64>::None
            },
    {
        if rt.index < self.return_tables.len() {
            Some(self.return_tables[rt.index].cols.len() as u64)
        } else {
            None
        }
    }

    /// Hands the guest a handle to the backing store.
    pub fn storage_new(&self) -> (r: Option<StorageCache>)
        ensures
            r is Some,
    {
        Some(StorageCache {  })
    }

    /// Records one guest log line.
    pub fn log(&mut self, level: LogLevel, message: String)
        ensures
            final(self).logs@ == old(self).logs@.push((LogLine { level, message })),
            final(self).return_tables == old(self).return_tables,
            final(self).space_name == old(self).space_name,
            final(self).epoch == old(self).epoch,
            final(self).token == old(self).token,
            final(self).start_time_ms == old(self).start_time_ms,
            final(self).counter == old(self).counter,
            final(self).log_floor == old(self).log_floor,
    {
        self.logs.push(LogLine { level, message });
    }

    /// Whether a line at `level` would be kept by this context's filter.
    pub fn log_enabled(&self, level: LogLevel) -> (r: bool)
        ensures
            r == (level.spec_rank() >= self.log_floor.spec_rank()),
    {
        level.enabled_at(&self.log_floor)
    }

    /// Encodes every accumulated output table into the wire format, in
    /// order, each under its label; columns of no recognized kind are
    /// skipped as the codec prescribes.
    pub fn into_tables(&self) -> (r: Vec<DataFrame>)
        ensures
            r@.len() == self.return_tables@.len(),
            forall|i: int|
                #![trigger r@[i]]
                0 <= i < r@.len() ==> r@[i]@.headers == spec_enc_headers(
                    cols_view(self.return_tables@[i].cols@),
                ) && r@[i]@.columns == spec_enc_columns(cols_view(self.return_tables@[i].cols@))
                    && r@[i]@.comment == self.return_tables@[i].name@,
    {
        let mut r: Vec<DataFrame> = Vec::new();
        let mut i: usize = 0;
        while i < self.return_tables.len()
            invariant
                i <= self.return_tables.len(),
                r@.len() == i,
                forall|j: int|
                    #![trigger r@[j]]
                    0 <= j < i ==> r@[j]@.headers == spec_enc_headers(
                        cols_view(self.return_tables@[j].cols@),
                    ) && r@[j]@.columns == spec_enc_columns(
                        cols_view(self.return_tables@[j].cols@),
                    ) && r@[j]@.comment == self.return_tables@[j].name@,
            decreases self.return_tables.len() - i,
        {
            let tbl = &self.return_tables[i];
            let df = encode_table(tbl.name.as_str(), &tbl.cols);
            r.push(df);
            i = i + 1;
        }
        r
    }

    /// Counts one completed backend query, saturating at the top.
    pub fn note_query(&mut self)
        ensures
            final(self).counter == if old(self).counter < u64::MAX {
                old(self).counter + 1
            } else {
                old(self).counter as int
            },
            final(self).return_tables == old(self).return_tables,
            final(self).logs == old(self).logs,
            final(self).space_name == old(self).space_name,
            final(self).epoch == old(self).epoch,
            final(self).token == old(self).token,
            final(self).start_time_ms == old(self).start_time_ms,
            final(self).log_floor == old(self).log_floor,
    {
        if self.counter < u64::MAX {
            self.counter = self.counter + 1;
        }
    }
}

} // verus!
