//! Dense matrices in row-major storage, and their shapes.

use vstd::prelude::*;

verus! {

/// The number of rows and of columns of a matrix.
#[derive(Clone, Copy, Debug, PartialEq, Eq, Structural)]
pub struct MatrixShape {
    pub rows: usize,
    pub columns: usize,
}

impl MatrixShape {
    pub fn new(rows: usize, columns: usize) -> (r: Self)
        ensures
            r.rows == rows,
            r.columns == columns,
    {
        MatrixShape { rows, columns }
    }

    /// The number of entries of a matrix of this shape.
    pub open spec fn area(&self) -> int {
        self.rows as int * self.columns as int
    }

    /// The number of entries of a matrix of this shape, where that number
    /// is representable.
    pub fn data_length(&self) -> (n: usize)
        requires
            self.area() <= usize::MAX,
        ensures
            n == self.area(),
    {
        self.rows * self.columns
    }
}

/// A matrix as mathematics sees it: its dimensions and its entries, row
/// after row.
pub struct MatrixView<T> {
    pub rows: nat,
    pub columns: nat,
    pub data: Seq<T>,
}

impl<T> MatrixView<T> {
    /// There are exactly as many entries as the dimensions call for.
    pub open spec fn wf(self) -> bool {
        self.data.len() == self.area()
    }

    /// The number of entries the dimensions call for.
    pub open spec fn area(self) -> int {
        self.rows as int * self.columns as int
    }

    /// The entry in row `i` and column `j`.
    pub open spec fn at(self, i: int, j: int) -> T {
        self.data[i * self.columns + j]
    }
}

/// A dense matrix stored row after row.
#[derive(Clone, Debug)]
pub struct Matrix<T> {
    pub rows: usize,
    pub columns: usize,
    pub data: Vec<T>,
}

impl<T> View for Matrix<T> {
    type V = MatrixView<T>;

    open spec fn view(&self) -> MatrixView<T> {
        MatrixView { rows: self.rows as nat, columns: self.columns as nat, data: self.data@ }
    }
}

/// Row `i`, column `j` of a `rows` by `columns` matrix lies at a valid
/// position of its row-major storage.
pub proof fn lemma_entry_in_bounds(i: int, j: int, rows: int, columns: int)
    by (nonlinear_arith)
    requires
        0 <= i < rows,
        0 <= j < columns,
    ensures
        0 <= i * columns + j < rows * columns,
        i * columns + columns <= rows * columns,
{
}

impl<T: Copy> Matrix<T> {
    /// The storage holds exactly `rows * columns` entries.
    pub open spec fn wf(&self) -> bool {
        self.data.len() == self@.area()
    }

    /// Tests at run time whether the storage agrees with the dimensions.
    pub fn is_well_formed(&self) -> (ok: bool)
        ensures
            ok == self.wf(),
    {
        match self.rows.checked_mul(self.columns) {
            Some(n) => self.data.len() == n,
            None => false,
        }
    }

    /// A matrix of the given shape whose entries are the first
    /// `rows * columns` of `values`, read row after row; `None` when
    /// `values` holds a different number of entries.
    pub fn new_with_shape_and_values(shape: &MatrixShape, values: &[T]) -> (r: Option<Self>)
        ensures
            r is Some <==> values@.len() == shape.area(),
            r matches Some(m) ==> m.wf() && m@.rows == shape.rows && m@.columns == shape.columns
                && m@.data == values@,
    {
        let given = values.len();
        match shape.rows.checked_mul(shape.columns) {
            Some(n) => {
                if given != n {
                    return None;
                }
                let mut data: Vec<T> = Vec::new();
                let mut i: usize = 0;
                while i < n
                    invariant
                        i <= n,
                        n == values@.len(),
                        data@ == values@.take(i as int),
                    decreases n - i,
                {
                    data.push(values[i]);
                    i += 1;
                }
                Some(Matrix { rows: shape.rows, columns: shape.columns, data })
            },
            None => None,
        }
    }

    /// A matrix of the given dimensions with every entry equal to `value`.
    pub fn new_filled(rows: usize, columns: usize, value: T) -> (m: Self)
        requires
            rows * columns <= usize::MAX,
        ensures
            m.wf(),
            m@.rows == rows,
            m@.columns == columns,
            forall|k: int| 0 <= k < m@.data.len() ==> m@.data[k] == value,
    {
        let n = rows * columns;
        let mut data: Vec<T> = Vec::new();
        let mut i: usize = 0;
        while i < n
            invariant
                i <= n,
                data@.len() == i,
                forall|k: int| 0 <= k < i ==> data@[k] == value,
            decreases n - i,
        {
            data.push(value);
            i += 1;
        }
        Matrix { rows, columns, data }
    }

    pub fn num_rows(&self) -> (n: usize)
        ensures
            n == self@.rows,
    {
        self.rows
    }

    pub fn num_columns(&self) -> (n: usize)
        ensures
            n == self@.columns,
    {
        self.columns
    }

    pub fn shape(&self) -> (s: MatrixShape)
        ensures
            s.rows == self@.rows,
            s.columns == self@.columns,
    {
        MatrixShape { rows: self.rows, columns: self.columns }
    }

    /// The entry in row `i` and column `j`.
    pub fn get(&self, i: usize, j: usize) -> (x: T)
        requires
            self.wf(),
            i < self@.rows,
            j < self@.columns,
        ensures
            x == self@.at(i as int, j as int),
    {
        proof {
            lemma_entry_in_bounds(i as int, j as int, self.rows as int, self.columns as int);
        }
        self.data[i * self.columns + j]
    }

    /// Replaces the entry in row `i` and column `j` and leaves the others.
    pub fn set(&mut self, i: usize, j: usize, value: T)
        requires
            old(self).wf(),
            i < old(self)@.rows,
            j < old(self)@.columns,
        ensures
            final(self).wf(),
            final(self)@.rows == old(self)@.rows,
            final(self)@.columns == old(self)@.columns,
            final(self)@.data == old(self)@.data.update(i * old(self)@.columns + j, value),
    {
        proof {
            lemma_entry_in_bounds(i as int, j as int, self.rows as int, self.columns as int);
        }
        let at = i * self.columns + j;
        self.data.set(at, value);
    }
}

} // verus!
