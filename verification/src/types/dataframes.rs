//! Output tables: named columns of equal length.

use crate::encoding::{encode_hex, hex_text};
use crate::types::datatypes::Datatype;
use crate::types::maps::DatatypeMap;
use vstd::prelude::*;

verus! {

/// The values of one column.
#[derive(Clone, Debug, PartialEq, Eq)]
pub enum ColumnValues {
    /// Unsigned 32-bit integers
    UInt32(Vec<u32>),
    /// Unsigned 64-bit integers
    UInt64(Vec<u64>),
    /// Raw bytes
    Binary(Vec<Vec<u8>>),
    /// Text, with missing values
    Text(Vec<Option<String>>),
}

/// The values of one column as plain values.
pub enum ColumnValuesView {
    UInt32(Seq<u32>),
    UInt64(Seq<u64>),
    Binary(Seq<Seq<u8>>),
    Text(Seq<Option<Seq<char>>>),
}

/// The byte strings of a list as plain values.
pub open spec fn bytes_views(values: Seq<Vec<u8>>) -> Seq<Seq<u8>> {
    values.map_values(|bytes: Vec<u8>| bytes@)
}

/// The texts of a list as plain values.
pub open spec fn text_views(values: Seq<Option<String>>) -> Seq<Option<Seq<char>>> {
    values.map_values(
        |text: Option<String>|
            match text {
                Some(t) => Some(t@),
                None => None,
            },
    )
}

/// Each byte string written as `0x`-prefixed hexadecimal text.
pub open spec fn hex_texts(values: Seq<Seq<u8>>) -> Seq<Option<Seq<char>>> {
    values.map_values(|bytes: Seq<u8>| Some(hex_text(bytes)))
}

impl View for ColumnValues {
    type V = ColumnValuesView;

    open spec fn view(&self) -> ColumnValuesView {
        match self {
            ColumnValues::UInt32(values) => ColumnValuesView::UInt32(values@),
            ColumnValues::UInt64(values) => ColumnValuesView::UInt64(values@),
            ColumnValues::Binary(values) => ColumnValuesView::Binary(bytes_views(values@)),
            ColumnValues::Text(values) => ColumnValuesView::Text(text_views(values@)),
        }
    }
}

impl ColumnValuesView {
    /// How many values the column holds.
    pub open spec fn len(self) -> nat {
        match self {
            ColumnValuesView::UInt32(values) => values.len(),
            ColumnValuesView::UInt64(values) => values.len(),
            ColumnValuesView::Binary(values) => values.len(),
            ColumnValuesView::Text(values) => values.len(),
        }
    }
}

impl ColumnValues {
    /// How many values the column holds.
    pub fn len(&self) -> (len: usize)
        ensures
            len == self@.len(),
    {
        match self {
            ColumnValues::UInt32(values) => values.len(),
            ColumnValues::UInt64(values) => values.len(),
            ColumnValues::Binary(values) => values.len(),
            ColumnValues::Text(values) => values.len(),
        }
    }

    /// A column of byte strings written as hexadecimal text, `0x` first.
    pub fn hex(values: &Vec<Vec<u8>>) -> (column: ColumnValues)
        ensures
            column@ == ColumnValuesView::Text(hex_texts(bytes_views(values@))),
    {
        let mut texts: Vec<Option<String>> = Vec::new();
        let mut i: usize = 0;
        while i < values.len()
            invariant
                i <= values.len(),
                texts@.len() == i,
                text_views(texts@) == hex_texts(bytes_views(values@)).take(i as int),
            decreases values.len() - i,
        {
            let ghost before = texts@;
            let text = encode_hex(&values[i]);
            texts.push(Some(text));
            proof {
                let wanted = hex_texts(bytes_views(values@));
                assert forall|j: int| 0 <= j < i + 1 implies text_views(texts@)[j] == wanted[j] by {
                    if j < i {
                        assert(text_views(before)[j] == wanted.take(i as int)[j]);
                        assert(texts@[j] == before[j]);
                    } else {
                        assert(texts@[j] == Some(text));
                        assert(bytes_views(values@)[j] == values@[j]@);
                    }
                }
                assert(text_views(texts@) =~= wanted.take(i + 1));
            }
            i += 1;
        }
        assert(text_views(texts@) =~= hex_texts(bytes_views(values@)));
        ColumnValues::Text(texts)
    }

    /// A column that repeats one number `count` times.
    pub fn repeat(value: u64, count: usize) -> (column: ColumnValues)
        ensures
            column@ == ColumnValuesView::UInt64(Seq::new(count as nat, |i: int| value)),
    {
        let mut values: Vec<u64> = Vec::new();
        let mut i: usize = 0;
        while i < count
            invariant
                i <= count,
                values@ == Seq::new(i as nat, |j: int| value),
            decreases count - i,
        {
            values.push(value);
            assert(values@ =~= Seq::new((i + 1) as nat, |j: int| value));
            i += 1;
        }
        ColumnValues::UInt64(values)
    }
}

/// A named column.
#[derive(Clone, Debug, PartialEq, Eq)]
pub struct Column {
    /// Name of the column
    pub name: String,
    /// Values of the column, one for each row
    pub values: ColumnValues,
}

/// A named column as plain values.
pub struct ColumnView {
    pub name: Seq<char>,
    pub values: ColumnValuesView,
}

impl View for Column {
    type V = ColumnView;

    open spec fn view(&self) -> ColumnView {
        ColumnView { name: self.name@, values: self.values@ }
    }
}

/// The columns of a list as plain values.
pub open spec fn column_views(columns: Seq<Column>) -> Seq<ColumnView> {
    columns.map_values(|column: Column| column@)
}

/// An output table: columns that all hold one value for each row.
#[derive(Debug)]
pub struct OutputTable {
    height: usize,
    columns: Vec<Column>,
}

/// An output table as plain values.
pub struct OutputTableView {
    pub height: nat,
    pub columns: Seq<ColumnView>,
}

impl OutputTableView {
    /// Whether every column holds one value for each row.
    pub open spec fn rectangular(self) -> bool {
        forall|i: int|
            0 <= i < self.columns.len() ==> (#[trigger] self.columns[i]).values.len()
                == self.height
    }

    /// Whether the table has a column called `name`.
    pub open spec fn has_column(self, name: Seq<char>) -> bool {
        exists|i: int| 0 <= i < self.columns.len() && (#[trigger] self.columns[i]).name == name
    }

    /// The table with one more column at the end.
    pub open spec fn with_column(self, column: ColumnView) -> OutputTableView {
        OutputTableView { height: self.height, columns: self.columns.push(column) }
    }
}

impl View for OutputTable {
    type V = OutputTableView;

    closed spec fn view(&self) -> OutputTableView {
        OutputTableView { height: self.height as nat, columns: column_views(self.columns@) }
    }
}

impl OutputTable {
    #[verifier::type_invariant]
    spec fn well_formed(&self) -> bool {
        self@.rectangular()
    }

    /// A table of `height` rows and no columns.
    pub fn new(height: usize) -> (table: OutputTable)
        ensures
            table@ == (OutputTableView { height: height as nat, columns: Seq::empty() }),
    {
        let table = OutputTable { height, columns: Vec::new() };
        assert(table@.columns =~= Seq::empty());
        table
    }

    /// How many rows the table has.
    pub fn height(&self) -> (height: usize)
        ensures
            height == self@.height,
    {
        self.height
    }

    /// The columns of the table, in order. Each holds one value for each row.
    pub fn columns(&self) -> (columns: &Vec<Column>)
        ensures
            column_views(columns@) == self@.columns,
            self@.rectangular(),
    {
        proof {
            use_type_invariant(self);
        }
        &self.columns
    }

    /// Appends a column if it holds one value for each row of the table.
    /// Otherwise the table stays as it is and `false` is returned.
    pub fn add_column(&mut self, column: Column) -> (added: bool)
        ensures
            added == (column@.values.len() == old(self)@.height),
            final(self)@ == if added {
                old(self)@.with_column(column@)
            } else {
                old(self)@
            },
    {
        proof {
            use_type_invariant(&*self);
        }
        if column.values.len() != self.height {
            return false;
        }
        let mut columns = Vec::new();
        std::mem::swap(&mut columns, &mut self.columns);
        let ghost before = columns@;
        columns.push(column);
        proof {
            assert(column_views(columns@) =~= column_views(before).push(column@));
            assert forall|i: int| 0 <= i < columns@.len() implies (#[trigger] column_views(
                columns@,
            )[i]).values.len() == self.height by {
                if i < before.len() {
                    assert(column_views(before)[i].values.len() == self.height);
                }
            }
        }
        self.columns = columns;
        true
    }
}

/// The tables of a map as plain values.
pub open spec fn table_views(tables: Map<Datatype, OutputTable>) -> Map<Datatype, OutputTableView> {
    tables.map_values(|table: OutputTable| table@)
}

/// The output tables of a collection run, keyed by dataset type.
pub type DataFrames = DatatypeMap<OutputTable>;

} // verus!
