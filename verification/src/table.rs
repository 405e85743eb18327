//! A table: named columns with the same number of rows.
use vstd::prelude::*;
use crate::column::{Column, ColumnView};

verus! {

/// Why a table could not be built.
#[derive(Clone, Copy, Debug, PartialEq, Eq, Structural)]
pub enum TableError {
    /// A column's length differs from the first column's.
    ColumnLengthMismatch,
    /// Two columns have the same name.
    DuplicateIdentifier,
}

/// What a table holds: its named columns in order and its number of rows.
pub struct TableView {
    pub columns: Seq<(Seq<char>, ColumnView)>,
    pub num_rows: nat,
}

/// The column named `id`, if the table has one.
pub open spec fn table_column(t: TableView, id: Seq<char>) -> Option<ColumnView> {
    if exists|i: int| 0 <= i < t.columns.len() && #[trigger] t.columns[i].0 == id {
        let i = choose|i: int| 0 <= i < t.columns.len() && #[trigger] t.columns[i].0 == id;
        Some(t.columns[i].1)
    } else {
        None
    }
}

/// No two columns share a name.
pub open spec fn names_distinct(columns: Seq<(Seq<char>, ColumnView)>) -> bool {
    forall|i: int, j: int|
        0 <= i < columns.len() && 0 <= j < columns.len() && i != j ==> #[trigger] columns[i].0
            != #[trigger] columns[j].0
}

/// Every column has `n` rows.
pub open spec fn lengths_are(columns: Seq<(Seq<char>, ColumnView)>, n: nat) -> bool {
    forall|i: int| 0 <= i < columns.len() ==> (#[trigger] columns[i]).1.scalars.len() == n
}

/// The view of a list of named columns.
pub open spec fn named_columns_view<'a>(columns: Seq<(String, Column<'a>)>) -> Seq<(Seq<char>, ColumnView)> {
    columns.map_values(|c: (String, Column<'a>)| (c.0@, c.1@))
}

/// Named columns with the same number of rows.
pub struct Table<'a> {
    columns: Vec<(String, Column<'a>)>,
    num_rows: usize,
}

impl<'a> View for Table<'a> {
    type V = TableView;

    closed spec fn view(&self) -> TableView {
        TableView { columns: named_columns_view(self.columns@), num_rows: self.num_rows as nat }
    }
}

impl<'a> Table<'a> {
    #[verifier::type_invariant]
    spec fn valid(self) -> bool {
        &&& names_distinct(named_columns_view(self.columns@))
        &&& lengths_are(named_columns_view(self.columns@), self.num_rows as nat)
    }

    /// A table of the given named columns; its number of rows is the first
    /// column's, or zero when there is none.
    pub fn try_new(columns: Vec<(String, Column<'a>)>) -> (r: Result<Table<'a>, TableError>)
        ensures
            match r {
                Ok(t) => {
                    &&& t@.columns == named_columns_view(columns@)
                    &&& t@.num_rows == (if columns@.len() == 0 {
                        0
                    } else {
                        columns@[0].1@.scalars.len()
                    })
                },
                Err(TableError::ColumnLengthMismatch) => !lengths_are(
                    named_columns_view(columns@),
                    columns@[0].1@.scalars.len(),
                ),
                Err(TableError::DuplicateIdentifier) => lengths_are(
                    named_columns_view(columns@),
                    columns@[0].1@.scalars.len(),
                ) && !names_distinct(named_columns_view(columns@)),
            },
            r is Ok <==> (names_distinct(named_columns_view(columns@)) && (columns@.len() == 0
                || lengths_are(named_columns_view(columns@), columns@[0].1@.scalars.len()))),
    {
        let ghost view = named_columns_view(columns@);
        let n = columns.len();
        if n == 0 {
            let t = Table { columns, num_rows: 0 };
            return Ok(t);
        }
        let num_rows = columns[0].1.len();
        for i in 0..n
            invariant
                n == columns@.len(),
                n > 0,
                view == named_columns_view(columns@),
                num_rows == view[0].1.scalars.len(),
                forall|j: int| 0 <= j < i ==> (#[trigger] view[j]).1.scalars.len() == num_rows,
        {
            if columns[i].1.len() != num_rows {
                assert(view[i as int].1.scalars.len() != num_rows);
                return Err(TableError::ColumnLengthMismatch);
            }
        }
        assert(lengths_are(view, num_rows as nat));
        for i in 0..n
            invariant
                n == columns@.len(),
                n > 0,
                view == named_columns_view(columns@),
                num_rows == view[0].1.scalars.len(),
                lengths_are(view, num_rows as nat),
                forall|a: int, b: int|
                    0 <= a < i && 0 <= b < n && a != b ==> #[trigger] view[a].0 != #[trigger] view[b].0,
        {
            for j in 0..n
                invariant
                    n == columns@.len(),
                    n > 0,
                    view == named_columns_view(columns@),
                    num_rows == view[0].1.scalars.len(),
                    lengths_are(view, num_rows as nat),
                    0 <= i < n,
                    forall|a: int, b: int|
                        0 <= a < i && 0 <= b < n && a != b ==> #[trigger] view[a].0 != #[trigger] view[b].0,
                    forall|b: int| 0 <= b < j && i != b ==> view[i as int].0 != #[trigger] view[b].0,
            {
                if i != j && columns[i].0 == columns[j].0 {
                    assert(view[i as int].0 == view[j as int].0);
                    return Err(TableError::DuplicateIdentifier);
                }
            }
        }
        let t = Table { columns, num_rows };
        Ok(t)
    }

    /// The number of rows.
    pub fn num_rows(&self) -> (r: usize)
        ensures
            r == self@.num_rows,
    {
        self.num_rows
    }

    /// The column named `id`, if the table has one.
    pub fn get(&self, id: &String) -> (r: Option<Column<'a>>)
        ensures
            match table_column(self@, id@) {
                Some(c) => r matches Some(x) && x@ == c,
                None => r is None,
            },
    {
        proof {
            use_type_invariant(self);
        }
        let ghost view = self@.columns;
        let n = self.columns.len();
        for i in 0..n
            invariant
                n == self.columns@.len(),
                view == self@.columns,
                view == named_columns_view(self.columns@),
                names_distinct(view),
                forall|j: int| 0 <= j < i ==> (#[trigger] view[j]).0 != id@,
        {
            if self.columns[i].0 == *id {
                proof {
                    assert(view[i as int].0 == id@);
                    let k = choose|k: int| 0 <= k < view.len() && #[trigger] view[k].0 == id@;
                    assert(names_distinct(view));
                    assert(k == i);
                }
                return Some(self.columns[i].1);
            }
        }
        None
    }
}

} // verus!
