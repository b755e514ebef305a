use vstd::prelude::*;

use crate::json::is_number_text;
use crate::strutil::str_eq;

verus! {

/// The primitive type a column is declared with: free text, or text that
/// denotes a 64-bit float value.
#[derive(Clone, Copy, Debug, PartialEq, Eq, Structural)]
pub enum ColType {
    Text,
    Float64,
}

/// One named, typed column.  Cells are kept as their literal text; a
/// `Float64` column holds only number-shaped text (see `table_wf`).
#[derive(Debug)]
pub struct Column {
    pub name: String,
    pub ty: ColType,
    pub cells: Vec<String>,
}

/// The texts of a sequence of cells.
pub open spec fn cells_view(cs: Seq<String>) -> Seq<Seq<char>> {
    cs.map_values(|c: String| c@)
}

impl View for Column {
    type V = (Seq<char>, ColType, Seq<Seq<char>>);

    open spec fn view(&self) -> (Seq<char>, ColType, Seq<Seq<char>>) {
        (self.name@, self.ty, cells_view(self.cells@))
    }
}

/// The views of a sequence of columns.
pub open spec fn cols_view(cs: Seq<Column>) -> Seq<(Seq<char>, ColType, Seq<Seq<char>>)> {
    cs.map_values(|c: Column| c@)
}

/// An ordered collection of equally long, distinctly named columns.
#[derive(Debug)]
pub struct Table {
    pub cols: Vec<Column>,
}

impl View for Table {
    type V = Seq<(Seq<char>, ColType, Seq<Seq<char>>)>;

    open spec fn view(&self) -> Seq<(Seq<char>, ColType, Seq<Seq<char>>)> {
        cols_view(self.cols@)
    }
}

/// The column names, in order.
pub open spec fn names_of(tv: Seq<(Seq<char>, ColType, Seq<Seq<char>>)>) -> Seq<Seq<char>> {
    tv.map_values(|c: (Seq<char>, ColType, Seq<Seq<char>>)| c.0)
}

/// The number of rows: the length of the first column (zero without columns).
pub open spec fn row_count_of(tv: Seq<(Seq<char>, ColType, Seq<Seq<char>>)>) -> nat {
    if tv.len() == 0 {
        0
    } else {
        tv[0].2.len()
    }
}

/// Well-formedness: all columns equally long, names pairwise distinct, and
/// every cell of a `Float64` column number-shaped.
pub open spec fn table_wf(tv: Seq<(Seq<char>, ColType, Seq<Seq<char>>)>) -> bool {
    &&& forall|i: int| 0 <= i < tv.len() ==> (#[trigger] tv[i].2).len() == row_count_of(tv)
    &&& forall|i: int, j: int|
        0 <= i < j < tv.len() ==> (#[trigger] tv[i].0) != (#[trigger] tv[j].0)
    &&& forall|i: int, r: int|
        0 <= i < tv.len() && tv[i].1 == ColType::Float64 && 0 <= r < tv[i].2.len()
            ==> is_number_text(#[trigger] tv[i].2[r])
}

impl Table {
    pub open spec fn wf(&self) -> bool {
        table_wf(self@)
    }

    /// A table with no columns and no rows.
    pub fn empty() -> (r: Table)
        ensures
            r@ =~= Seq::<(Seq<char>, ColType, Seq<Seq<char>>)>::empty(),
            r.wf(),
    {
        Table { cols: Vec::new() }
    }

    pub fn n_cols(&self) -> (r: usize)
        ensures
            r == self@.len(),
    {
        self.cols.len()
    }

    pub fn n_rows(&self) -> (r: usize)
        ensures
            r as nat == row_count_of(self@),
    {
        if self.cols.len() == 0 {
            0
        } else {
            self.cols[0].cells.len()
        }
    }

    /// The position of the column with the given name, if any.
    pub fn col_index(&self, name: &str) -> (r: Option<usize>)
        ensures
            match r {
                Some(ix) => ix < self@.len() && self@[ix as int].0 == name@,
                None => forall|i: int| 0 <= i < self@.len() ==> (#[trigger] self@[i]).0 != name@,
            },
    {
        let mut i: usize = 0;
        while i < self.cols.len()
            invariant
                i <= self.cols.len(),
                forall|k: int| 0 <= k < i ==> (#[trigger] self@[k]).0 != name@,
            decreases self.cols.len() - i,
        {
            if str_eq(self.cols[i].name.as_str(), name) {
                return Some(i);
            }
            i += 1;
        }
        None
    }

    pub fn col_name(&self, col: usize) -> (r: &String)
        requires
            col < self@.len(),
        ensures
            r@ == self@[col as int].0,
    {
        &self.cols[col].name
    }

    pub fn col_ty(&self, col: usize) -> (r: ColType)
        requires
            col < self@.len(),
        ensures
            r == self@[col as int].1,
    {
        self.cols[col].ty
    }

    /// The cell text at the given column and row.
    pub fn cell(&self, col: usize, row: usize) -> (r: &String)
        requires
            col < self@.len(),
            row < self@[col as int].2.len(),
        ensures
            r@ == self@[col as int].2[row as int],
    {
        &self.cols[col].cells[row]
    }

    /// The first row whose cell in the given column equals `value`, if any.
    pub fn find_row(&self, col: usize, value: &str) -> (r: Option<usize>)
        requires
            col < self@.len(),
        ensures
            match r {
                Some(rx) => rx < self@[col as int].2.len() && self@[col as int].2[rx as int]
                    == value@ && forall|k: int|
                    0 <= k < rx ==> self@[col as int].2[k] != value@,
                None => forall|k: int|
                    0 <= k < self@[col as int].2.len() ==> self@[col as int].2[k] != value@,
            },
    {
        let n = self.cols[col].cells.len();
        let mut rx: usize = 0;
        while rx < n
            invariant
                col < self@.len(),
                n == self@[col as int].2.len(),
                rx <= n,
                forall|k: int| 0 <= k < rx ==> self@[col as int].2[k] != value@,
            decreases n - rx,
        {
            if str_eq(self.cols[col].cells[rx].as_str(), value) {
                return Some(rx);
            }
            rx += 1;
        }
        None
    }

    /// The cells of one row, in column order.
    pub fn row_cells(&self, row: usize) -> (r: Vec<String>)
        requires
            self.wf(),
            row < row_count_of(self@),
        ensures
            cells_view(r@) == Seq::new(self@.len(), |j: int| self@[j].2[row as int]),
    {
        let mut r: Vec<String> = Vec::new();
        let mut j: usize = 0;
        while j < self.cols.len()
            invariant
                self.wf(),
                row < row_count_of(self@),
                j <= self@.len(),
                cells_view(r@) =~= Seq::new(self@.len(), |k: int| self@[k].2[row as int]).take(
                    j as int,
                ),
            decreases self.cols.len() - j,
        {
            proof {
                assert(self@[j as int].2.len() == row_count_of(self@));
            }
            let ghost prev = cells_view(r@);
            r.push(self.cols[j].cells[row].clone());
            proof {
                assert(self@[j as int] == self.cols@[j as int]@);
                assert(self@[j as int].2[row as int] == self.cols@[j as int].cells@[row as int]@);
                assert(cells_view(r@) =~= prev.push(self@[j as int].2[row as int]));
                assert(cells_view(r@) =~= Seq::new(
                    self@.len(),
                    |k: int| self@[k].2[row as int],
                ).take(j + 1 as int));
            }
            j += 1;
        }
        proof {
            assert(cells_view(r@) =~= Seq::new(self@.len(), |k: int| self@[k].2[row as int]));
        }
        r
    }
}

} // verus!
