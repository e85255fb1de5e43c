//! Columnar batches. A block is an immutable batch of rows that exposes,
//! for a column name, the ordered sequence of values of that column. It
//! stands for one page / row group of a file.

use vstd::prelude::*;

use crate::value::Value;
use crate::value::ValueView;

verus! {

/// One named column of a block.
#[derive(Clone, Debug, PartialEq)]
pub struct Column {
    pub name: String,
    pub values: Vec<Value>,
}

/// The mathematical shape of a column.
pub struct ColumnView {
    pub name: Seq<char>,
    pub values: Seq<ValueView>,
}

impl View for Column {
    type V = ColumnView;

    open spec fn view(&self) -> ColumnView {
        ColumnView { name: self.name@, values: self.values.deep_view() }
    }
}

impl DeepView for Column {
    type V = ColumnView;

    open spec fn deep_view(&self) -> ColumnView {
        self.view()
    }
}

/// An immutable columnar batch of rows.
#[derive(Clone, Debug, PartialEq)]
pub struct Block {
    pub columns: Vec<Column>,
}

impl View for Block {
    type V = Seq<ColumnView>;

    open spec fn view(&self) -> Seq<ColumnView> {
        self.columns.deep_view()
    }
}

impl DeepView for Block {
    type V = Seq<ColumnView>;

    open spec fn deep_view(&self) -> Seq<ColumnView> {
        self.view()
    }
}

pub open spec fn find_col_from(cols: Seq<ColumnView>, name: Seq<char>, i: int) -> Option<
    ColumnView,
>
    decreases cols.len() - i,
{
    if i < 0 || i >= cols.len() {
        None
    } else if cols[i].name == name {
        Some(cols[i])
    } else {
        find_col_from(cols, name, i + 1)
    }
}

/// The first column of the block carrying the given name, if any.
pub open spec fn spec_find_col(cols: Seq<ColumnView>, name: Seq<char>) -> Option<ColumnView> {
    find_col_from(cols, name, 0)
}

impl Block {
    pub fn new(columns: Vec<Column>) -> (r: Block)
        ensures
            r@ == columns.deep_view(),
    {
        Block { columns }
    }

    /// Look a column up by name; the first match wins.
    pub fn column(&self, name: &String) -> (r: Option<&Column>)
        ensures
            match r {
                Some(c) => spec_find_col(self@, name@) == Some(c@),
                None => spec_find_col(self@, name@) is None,
            },
    {
        let n = self.columns.len();
        let mut i: usize = 0;
        while i < n
            invariant
                0 <= i <= n,
                n == self.columns@.len(),
                spec_find_col(self@, name@) == find_col_from(self@, name@, i as int),
            decreases n - i,
        {
            proof {
                assert(self@[i as int] == self.columns@[i as int]@);
            }
            if self.columns[i].name == *name {
                return Some(&self.columns[i]);
            }
            i += 1;
        }
        None
    }
}

} // verus!
