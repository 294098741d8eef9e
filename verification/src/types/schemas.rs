//! Table metadata: which columns a dataset's table holds and how they are
//! encoded.

use crate::types::datatypes::Datatype;
use crate::types::files::ColumnEncoding;
use crate::types::maps::DatatypeMap;
use vstd::prelude::*;

verus! {

/// One column of a table.
#[derive(Clone, Debug, PartialEq, Eq)]
pub struct ColumnSchema {
    /// Name of the column
    pub name: String,
    /// How the column is written if its values are bytes; other columns
    /// ignore it
    pub encoding: ColumnEncoding,
}

/// Metadata of one dataset type's table.
#[derive(Clone, Debug, PartialEq, Eq)]
pub struct Table {
    /// The dataset type that the table belongs to
    pub datatype: Datatype,
    /// The columns to populate
    pub columns: Vec<ColumnSchema>,
    /// The columns that give the table's default row order
    pub sort_columns: Vec<String>,
}

/// The table metadata of every dataset type in use.
pub type Schemas = DatatypeMap<Table>;

/// The encoding of the first column called `name`, if there is such a column.
pub open spec fn find_column(columns: Seq<ColumnSchema>, name: Seq<char>) -> Option<
    ColumnEncoding,
>
    decreases columns.len(),
{
    if columns.len() == 0 {
        None
    } else if columns[0].name@ == name {
        Some(columns[0].encoding)
    } else {
        find_column(columns.skip(1), name)
    }
}

impl Table {
    /// Whether the table includes a column called `name`.
    pub open spec fn includes(&self, name: Seq<char>) -> bool {
        find_column(self.columns@, name) is Some
    }

    /// The encoding that the table declares for the column called `name`.
    pub open spec fn encoding_of(&self, name: Seq<char>) -> Option<ColumnEncoding> {
        find_column(self.columns@, name)
    }

    /// The encoding that the table declares for the column called `name`;
    /// `None` if the table does not include the column.
    pub fn column_encoding(&self, name: &str) -> (encoding: Option<ColumnEncoding>)
        ensures
            encoding == self.encoding_of(name@),
    {
        let wanted = String::from_str(name);
        let ghost all = self.columns@;
        proof {
            assert(all.skip(0) =~= all);
        }
        let mut i: usize = 0;
        while i < self.columns.len()
            invariant
                i <= self.columns.len(),
                all == self.columns@,
                wanted@ == name@,
                find_column(all, name@) == find_column(all.skip(i as int), name@),
            decreases self.columns.len() - i,
        {
            proof {
                assert(all.skip(i as int)[0] == all[i as int]);
                assert(all.skip(i as int).skip(1) =~= all.skip(i + 1));
            }
            if self.columns[i].name == wanted {
                return Some(self.columns[i].encoding);
            }
            i += 1;
        }
        None
    }

    /// Whether the table includes a column called `name`.
    pub fn has_column(&self, name: &str) -> (found: bool)
        ensures
            found == self.includes(name@),
    {
        self.column_encoding(name).is_some()
    }
}

/// `column` with `value` at its end if `table` includes the column called
/// `name`; `column` as it is otherwise.
pub open spec fn stored<T>(table: &Table, column: Seq<T>, name: Seq<char>, value: T) -> Seq<T> {
    if table.includes(name) {
        column.push(value)
    } else {
        column
    }
}

/// Writes `value` to the end of `column` if `table` includes the column
/// called `name`, and leaves `column` as it is otherwise.
pub fn write_column<T>(table: &Table, column: &mut Vec<T>, name: &str, value: T)
    ensures
        final(column)@ == stored(table, old(column)@, name@, value),
{
    if table.has_column(name) {
        column.push(value);
    }
}

/// Whether `len` is the length that the row-count invariant asks of the
/// column called `name`: the row counter if `table` includes the column,
/// zero otherwise.
pub open spec fn column_consistent(table: &Table, name: Seq<char>, len: nat, n_rows: u64) -> bool {
    if table.includes(name) {
        len == n_rows
    } else {
        len == 0
    }
}

} // verus!
