//! Cell values and columns: the six supported value kinds, plus the
//! absent kind used when a wire column carries no recognized values.
//!
//! Float kinds carry their raw bit patterns (`u32`/`u64`); the worker core
//! never computes on them, it only moves them between representations.

use vstd::prelude::*;

verus! {

/// The kind tag of a cell value or of a column.
#[derive(Clone, Copy, Debug, PartialEq, Eq, Structural)]
pub enum ValueKind {
    Nil,
    Bol,
    I32,
    I64,
    F32,
    F64,
    Txt,
}

/// One cell value. `F32`/`F64` hold raw bit patterns.
#[derive(Clone, Debug, PartialEq)]
pub enum Value {
    Nil,
    Bol(bool),
    I32(i32),
    I64(i64),
    F32(u32),
    F64(u64),
    Txt(String),
}

/// Mathematical model of a `Value`: strings become character sequences.
pub enum ValueView {
    Nil,
    Bol(bool),
    I32(i32),
    I64(i64),
    F32(u32),
    F64(u64),
    Txt(Seq<char>),
}

impl View for Value {
    type V = ValueView;

    open spec fn view(&self) -> ValueView {
        match self {
            Value::Nil => ValueView::Nil,
            Value::Bol(b) => ValueView::Bol(*b),
            Value::I32(x) => ValueView::I32(*x),
            Value::I64(x) => ValueView::I64(*x),
            Value::F32(x) => ValueView::F32(*x),
            Value::F64(x) => ValueView::F64(*x),
            Value::Txt(s) => ValueView::Txt(s@),
        }
    }
}

impl ValueView {
    /// The kind of a modeled cell value.
    pub open spec fn kind(self) -> ValueKind {
        match self {
            ValueView::Nil => ValueKind::Nil,
            ValueView::Bol(_) => ValueKind::Bol,
            ValueView::I32(_) => ValueKind::I32,
            ValueView::I64(_) => ValueKind::I64,
            ValueView::F32(_) => ValueKind::F32,
            ValueView::F64(_) => ValueKind::F64,
            ValueView::Txt(_) => ValueKind::Txt,
        }
    }
}

impl Value {
    /// The kind tag of this value.
    pub fn kind(&self) -> (k: ValueKind)
        ensures
            k == self@.kind(),
    {
        match self {
            Value::Nil => ValueKind::Nil,
            Value::Bol(_) => ValueKind::Bol,
            Value::I32(_) => ValueKind::I32,
            Value::I64(_) => ValueKind::I64,
            Value::F32(_) => ValueKind::F32,
            Value::F64(_) => ValueKind::F64,
            Value::Txt(_) => ValueKind::Txt,
        }
    }

    /// An exact copy; written by hand so that the copy is known to model
    /// the same value.
    pub fn duplicate(&self) -> (r: Value)
        ensures
            r@ == self@,
    {
        match self {
            Value::Nil => Value::Nil,
            Value::Bol(b) => Value::Bol(*b),
            Value::I32(x) => Value::I32(*x),
            Value::I64(x) => Value::I64(*x),
            Value::F32(x) => Value::F32(*x),
            Value::F64(x) => Value::F64(*x),
            Value::Txt(s) => Value::Txt(s.clone()),
        }
    }
}

/// One column of cells, all of one kind. `Nil` is the absent column: a
/// wire column with no recognized value kind decodes to it and it encodes
/// back as absence.
#[derive(Clone, Debug, PartialEq)]
pub enum Column {
    Nil,
    Bol(Vec<bool>),
    I32(Vec<i32>),
    I64(Vec<i64>),
    F32(Vec<u32>),
    F64(Vec<u64>),
    Txt(Vec<String>),
}

/// Mathematical model of a column: its kind and its cells in order.
pub struct ColumnView {
    pub kind: ValueKind,
    pub cells: Seq<ValueView>,
}

impl View for Column {
    type V = ColumnView;

    open spec fn view(&self) -> ColumnView {
        match self {
            Column::Nil => ColumnView { kind: ValueKind::Nil, cells: Seq::empty() },
            Column::Bol(v) => ColumnView {
                kind: ValueKind::Bol,
                cells: Seq::new(v@.len(), |i: int| ValueView::Bol(v@[i])),
            },
            Column::I32(v) => ColumnView {
                kind: ValueKind::I32,
                cells: Seq::new(v@.len(), |i: int| ValueView::I32(v@[i])),
            },
            Column::I64(v) => ColumnView {
                kind: ValueKind::I64,
                cells: Seq::new(v@.len(), |i: int| ValueView::I64(v@[i])),
            },
            Column::F32(v) => ColumnView {
                kind: ValueKind::F32,
                cells: Seq::new(v@.len(), |i: int| ValueView::F32(v@[i])),
            },
            Column::F64(v) => ColumnView {
                kind: ValueKind::F64,
                cells: Seq::new(v@.len(), |i: int| ValueView::F64(v@[i])),
            },
            Column::Txt(v) => ColumnView {
                kind: ValueKind::Txt,
                cells: Seq::new(v@.len(), |i: int| ValueView::Txt(v@[i]@)),
            },
        }
    }
}

impl ColumnView {
    /// The cell at `i`, or the null marker when the column is too short.
    pub open spec fn cell_or_nil(self, i: int) -> ValueView {
        if 0 <= i < self.cells.len() {
            self.cells[i]
        } else {
            ValueView::Nil
        }
    }
}

impl Column {
    /// Number of cells.
    pub fn len(&self) -> (n: usize)
        ensures
            n == self@.cells.len(),
    {
        match self {
            Column::Nil => 0,
            Column::Bol(v) => v.len(),
            Column::I32(v) => v.len(),
            Column::I64(v) => v.len(),
            Column::F32(v) => v.len(),
            Column::F64(v) => v.len(),
            Column::Txt(v) => v.len(),
        }
    }

    /// The kind tag of this column.
    pub fn kind(&self) -> (k: ValueKind)
        ensures
            k == self@.kind,
    {
        match self {
            Column::Nil => ValueKind::Nil,
            Column::Bol(_) => ValueKind::Bol,
            Column::I32(_) => ValueKind::I32,
            Column::I64(_) => ValueKind::I64,
            Column::F32(_) => ValueKind::F32,
            Column::F64(_) => ValueKind::F64,
            Column::Txt(_) => ValueKind::Txt,
        }
    }

    /// An empty column of the same kind as `v`; a `Nil` value yields the
    /// absent column.
    pub fn empty_like(v: &Value) -> (c: Column)
        ensures
            c@.kind == v@.kind(),
            c@.cells.len() == 0,
    {
        let c = match v {
            Value::Nil => Column::Nil,
            Value::Bol(_) => Column::Bol(Vec::new()),
            Value::I32(_) => Column::I32(Vec::new()),
            Value::I64(_) => Column::I64(Vec::new()),
            Value::F32(_) => Column::F32(Vec::new()),
            Value::F64(_) => Column::F64(Vec::new()),
            Value::Txt(_) => Column::Txt(Vec::new()),
        };
        proof {
            assert(c@.cells =~= Seq::<ValueView>::empty());
        }
        c
    }

    /// Appends `v` when its kind matches this column's (and is not `Nil`);
    /// otherwise leaves the column unchanged.
    pub fn push_value(&mut self, v: &Value) -> (ok: bool)
        ensures
            ok == (old(self)@.kind == v@.kind() && v@.kind() != ValueKind::Nil),
            final(self)@.kind == old(self)@.kind,
            ok ==> final(self)@.cells == old(self)@.cells.push(v@),
            !ok ==> final(self)@.cells == old(self)@.cells,
    {
        let r = match (&mut *self, v) {
            (Column::Bol(vec), Value::Bol(x)) => {
                vec.push(*x);
                true
            },
            (Column::I32(vec), Value::I32(x)) => {
                vec.push(*x);
                true
            },
            (Column::I64(vec), Value::I64(x)) => {
                vec.push(*x);
                true
            },
            (Column::F32(vec), Value::F32(x)) => {
                vec.push(*x);
                true
            },
            (Column::F64(vec), Value::F64(x)) => {
                vec.push(*x);
                true
            },
            (Column::Txt(vec), Value::Txt(x)) => {
                vec.push(x.clone());
                true
            },
            _ => false,
        };
        proof {
            if r {
                assert(self@.cells =~= old(self)@.cells.push(v@));
            } else {
                assert(self@.cells =~= old(self)@.cells);
            }
        }
        r
    }

    /// The cell at `i`, or `Value::Nil` past the end: the null padding used
    /// when rows are materialized from columns of uneven lengths.
    pub fn get_or_nil(&self, i: usize) -> (r: Value)
        ensures
            r@ == self@.cell_or_nil(i as int),
    {
        match self {
            Column::Nil => Value::Nil,
            Column::Bol(v) => {
                if i < v.len() {
                    Value::Bol(v[i])
                } else {
                    Value::Nil
                }
            },
            Column::I32(v) => {
                if i < v.len() {
                    Value::I32(v[i])
                } else {
                    Value::Nil
                }
            },
            Column::I64(v) => {
                if i < v.len() {
                    Value::I64(v[i])
                } else {
                    Value::Nil
                }
            },
            Column::F32(v) => {
                if i < v.len() {
                    Value::F32(v[i])
                } else {
                    Value::Nil
                }
            },
            Column::F64(v) => {
                if i < v.len() {
                    Value::F64(v[i])
                } else {
                    Value::Nil
                }
            },
            Column::Txt(v) => {
                if i < v.len() {
                    Value::Txt(v[i].clone())
                } else {
                    Value::Nil
                }
            },
        }
    }

    /// The first cell, or `Value::Nil` when the column is empty or absent.
    pub fn first_or_nil(&self) -> (r: Value)
        ensures
            r@ == self@.cell_or_nil(0),
    {
        self.get_or_nil(0)
    }

    /// An exact copy; written by hand so that the copy is known to model
    /// the same column.
    pub fn duplicate(&self) -> (r: Column)
        ensures
            r@ == self@,
    {
        let r = match self {
            Column::Nil => Column::Nil,
            Column::Bol(v) => Column::Bol(v.clone()),
            Column::I32(v) => Column::I32(v.clone()),
            Column::I64(v) => Column::I64(v.clone()),
            Column::F32(v) => Column::F32(v.clone()),
            Column::F64(v) => Column::F64(v.clone()),
            Column::Txt(v) => Column::Txt(v.clone()),
        };
        proof {
            assert(r@.cells =~= self@.cells);
        }
        r
    }
}

/// A named cell: one entry of a row handed across the sandbox boundary.
#[derive(Clone, Debug, PartialEq)]
pub struct NamedValue {
    pub key: String,
    pub val: Value,
}

/// Mathematical model of a named cell.
pub struct NamedValueView {
    pub key: Seq<char>,
    pub val: ValueView,
}

impl View for NamedValue {
    type V = NamedValueView;

    open spec fn view(&self) -> NamedValueView {
        NamedValueView { key: self.key@, val: self.val@ }
    }
}

impl NamedValue {
    /// An exact copy, known to model the same named cell.
    pub fn duplicate(&self) -> (r: NamedValue)
        ensures
            r@ == self@,
    {
        NamedValue { key: self.key.clone(), val: self.val.duplicate() }
    }
}

/// A named column: one entry of a table handed across the sandbox boundary.
#[derive(Clone, Debug, PartialEq)]
pub struct NamedColumn {
    pub key: String,
    pub val: Column,
}

/// Mathematical model of a named column.
pub struct NamedColumnView {
    pub key: Seq<char>,
    pub val: ColumnView,
}

impl View for NamedColumn {
    type V = NamedColumnView;

    open spec fn view(&self) -> NamedColumnView {
        NamedColumnView { key: self.key@, val: self.val@ }
    }
}

impl NamedColumn {
    /// An exact copy, known to model the same named column.
    pub fn duplicate(&self) -> (r: NamedColumn)
        ensures
            r@ == self@,
    {
        NamedColumn { key: self.key.clone(), val: self.val.duplicate() }
    }
}

/// Merge semantics of a key-value write.
#[derive(Clone, Copy, Debug, PartialEq, Eq, Structural)]
pub enum MergeOp {
    /// Numeric increment of the stored value.
    Add,
    /// Overwrite.
    Mov,
    /// Remove the field.
    Del,
}

/// Severity of a guest log line.
#[derive(Clone, Copy, Debug, PartialEq, Eq, Structural)]
pub enum LogLevel {
    Trace,
    Debug,
    Info,
    Warn,
    Error,
}

impl LogLevel {
    /// Numeric rank: higher is more severe.
    pub open spec fn spec_rank(self) -> int {
        match self {
            LogLevel::Trace => 0,
            LogLevel::Debug => 1,
            LogLevel::Info => 2,
            LogLevel::Warn => 3,
            LogLevel::Error => 4,
        }
    }

    /// Numeric rank: higher is more severe.
    pub fn rank(&self) -> (r: u8)
        ensures
            r == self.spec_rank(),
    {
        match self {
            LogLevel::Trace => 0,
            LogLevel::Debug => 1,
            LogLevel::Info => 2,
            LogLevel::Warn => 3,
            LogLevel::Error => 4,
        }
    }

    /// Whether a line at level `self` passes a filter that admits
    /// everything at least as severe as `floor`.
    pub fn enabled_at(&self, floor: &LogLevel) -> (r: bool)
        ensures
            r == (self.spec_rank() >= floor.spec_rank()),
    {
        self.rank() >= floor.rank()
    }
}

} // verus!
