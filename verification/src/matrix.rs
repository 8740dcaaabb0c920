//! Dense row-major and coordinate-list matrices.
//!
//! `Matrix` stores its entries as a vector of rows; `COOMatrix` stores
//! `(row, col, value)` triples in insertion order.

use vstd::prelude::*;

verus! {

/// A dense matrix held as a vector of rows.
#[derive(Debug, PartialEq)]
pub struct Matrix<T> {
    data: Vec<Vec<T>>,
}

impl<T> View for Matrix<T> {
    type V = Seq<Vec<T>>;

    closed spec fn view(&self) -> Seq<Vec<T>> {
        self.data@
    }
}

impl<T> Matrix<T> {
    /// Wrap a vector of rows as a matrix.
    pub fn new(data: Vec<Vec<T>>) -> (m: Self)
        ensures
            m@ == data@,
    {
        Matrix { data }
    }

    /// The row count and the column count of the first row (0 when there
    /// are no rows); rows are not required to share a length.
    pub fn shape(&self) -> (s: (usize, usize))
        ensures
            s.0 == self@.len(),
            self@.len() == 0 ==> s.1 == 0,
            self@.len() > 0 ==> s.1 == self@[0]@.len(),
    {
        let rows = self.data.len();
        let cols = if rows == 0 {
            0
        } else {
            self.data[0].len()
        };
        (rows, cols)
    }

    /// Read access to one row.
    pub fn row(&self, i: usize) -> (r: &Vec<T>)
        requires
            i < self@.len(),
        ensures
            *r == self@[i as int],
    {
        &self.data[i]
    }

    /// Overwrite one entry in place.
    pub fn set_entry(&mut self, i: usize, j: usize, value: T)
        requires
            i < old(self)@.len(),
            j < old(self)@[i as int]@.len(),
        ensures
            final(self)@.len() == old(self)@.len(),
            final(self)@[i as int]@ == old(self)@[i as int]@.update(j as int, value),
            forall|k: int|
                0 <= k < old(self)@.len() && k != i ==> final(self)@[k] == old(self)@[k],
    {
        self.data[i][j] = value;
    }
}

/// One stored entry of a coordinate-list matrix.
#[derive(Debug)]
pub struct Tuple<T> {
    pub row: usize,
    pub col: usize,
    pub value: T,
}

/// A sparse matrix in coordinate-list form: entries in insertion order.
#[derive(Debug)]
pub struct COOMatrix<T> {
    data: Vec<Tuple<T>>,
}

impl<T> View for COOMatrix<T> {
    type V = Seq<Tuple<T>>;

    closed spec fn view(&self) -> Seq<Tuple<T>> {
        self.data@
    }
}

impl<T> COOMatrix<T> {
    /// An empty coordinate-list matrix.
    pub fn new() -> (m: Self)
        ensures
            m@ == Seq::<Tuple<T>>::empty(),
    {
        COOMatrix { data: Vec::new() }
    }

    /// Record one entry at the end of the list.
    pub fn push(&mut self, row: usize, col: usize, value: T)
        ensures
            final(self)@ == old(self)@.push((Tuple { row, col, value })),
    {
        self.data.push(Tuple { row, col, value });
    }

    /// Read access to the stored entries.
    pub fn data(&self) -> (d: &Vec<Tuple<T>>)
        ensures
            d@ == self@,
    {
        &self.data
    }
}

} // verus!
