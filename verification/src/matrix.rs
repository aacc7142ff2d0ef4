//! Matrices of a size fixed by their type, stored column by column.
use vstd::prelude::*;

verus! {

/// A matrix of `M` rows and `N` columns.
pub struct Matrix<T, const M: usize, const N: usize> {
    pub contents: [[T; M]; N],
}

/// A column vector of `M` entries.
pub type Vector<T, const M: usize> = Matrix<T, M, 1>;

/// The index that a swap of `i` and `j` takes `k` to.
pub open spec fn swapped(k: int, i: int, j: int) -> int {
    if k == i {
        j
    } else if k == j {
        i
    } else {
        k
    }
}

impl<T: Copy, const M: usize, const N: usize> Matrix<T, M, N> {
    /// The entry in row `row` and column `col`.
    pub open spec fn at(&self, row: int, col: int) -> T {
        self.contents@[col]@[row]
    }

    /// The matrix with the given columns.
    pub fn new(contents: [[T; M]; N]) -> (matrix: Self)
        ensures
            matrix.contents == contents,
    {
        Matrix { contents }
    }

    /// The entry in row `row` and column `col`.
    pub fn get(&self, row: usize, col: usize) -> (entry: T)
        requires
            row < M,
            col < N,
        ensures
            entry == self.at(row as int, col as int),
    {
        self.contents[col][row]
    }

    /// Swaps the rows `i` and `j`.
    pub fn swap_row(&mut self, i: usize, j: usize)
        requires
            i < M,
            j < M,
        ensures
            forall|row: int, col: int|
                0 <= row < M && 0 <= col < N ==> #[trigger] final(self).at(row, col) == old(
                    self,
                ).at(swapped(row, i as int, j as int), col),
    {
        let mut k: usize = 0;
        while k < N
            invariant
                k <= N,
                i < M,
                j < M,
                forall|row: int, col: int|
                    0 <= row < M && 0 <= col < k ==> #[trigger] self.at(row, col) == old(self).at(
                        swapped(row, i as int, j as int),
                        col,
                    ),
                forall|row: int, col: int|
                    0 <= row < M && k <= col < N ==> #[trigger] self.at(row, col) == old(self).at(
                        row,
                        col,
                    ),
            decreases N - k,
        {
            let ghost before = *self;
            let mut column = self.contents[k];
            let first = column[i];
            let second = column[j];
            column[i] = second;
            column[j] = first;
            self.contents[k] = column;
            proof {
                assert forall|row: int, col: int| 0 <= row < M && 0 <= col < k + 1 implies (
                #[trigger] self.at(row, col)) == old(self).at(
                    swapped(row, i as int, j as int),
                    col,
                ) by {
                    if col == k {
                        assert(self.contents@[col] == column);
                        assert(column@[row] == before.at(swapped(row, i as int, j as int), col));
                    } else {
                        assert(self.contents@[col] == before.contents@[col]);
                        assert(self.at(row, col) == before.at(row, col));
                    }
                }
                assert forall|row: int, col: int| 0 <= row < M && k + 1 <= col < N implies (
                #[trigger] self.at(row, col)) == old(self).at(row, col) by {
                    assert(self.contents@[col] == before.contents@[col]);
                    assert(self.at(row, col) == before.at(row, col));
                }
            }
            k = k + 1;
        }
    }

    /// Swaps the columns `i` and `j`.
    pub fn swap_col(&mut self, i: usize, j: usize)
        requires
            i < N,
            j < N,
        ensures
            forall|row: int, col: int|
                0 <= row < M && 0 <= col < N ==> #[trigger] final(self).at(row, col) == old(
                    self,
                ).at(row, swapped(col, i as int, j as int)),
    {
        let first = self.contents[i];
        let second = self.contents[j];
        self.contents[i] = second;
        self.contents[j] = first;
    }
}

impl<T: Copy, const M: usize> Matrix<T, M, 1> {
    /// The column vector with the given entries.
    pub fn v_new(contents: [T; M]) -> (vector: Self)
        ensures
            forall|row: int| 0 <= row < M ==> #[trigger] vector.at(row, 0) == contents@[row],
    {
        Self::new([contents])
    }
}

} // verus!
