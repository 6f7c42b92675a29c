//! Walking the entries of a matrix in row-major order.
use crate::matrix::{rectangular, table, Matrix};
use vstd::prelude::*;

verus! {

/// The entries of `rows` in row-major order: entry `k` is the one in row `k / c` and column
/// `k % c`, where `c` is the length of a row.
pub open spec fn row_major<T>(rows: Seq<Seq<T>>) -> Seq<T> {
    Seq::new(
        rows.len() * rows[0].len(),
        |k: int| rows[k / (rows[0].len() as int)][k % (rows[0].len() as int)],
    )
}

/// A cursor over the entries of a matrix, row by row.
pub struct MatrixIter<'a, T> {
    matrix: &'a Matrix<T>,
    row: usize,
    col: usize,
}

impl<'a, T> MatrixIter<'a, T> {
    /// The table that the cursor walks.
    pub closed spec fn source(&self) -> Seq<Seq<T>> {
        self.matrix@
    }

    /// How many entries the cursor has handed out.
    pub closed spec fn position(&self) -> nat {
        (self.row * self.matrix@[0].len() + self.col) as nat
    }

    /// The cursor stands on an entry of the matrix, or behind the last one.
    #[verifier::type_invariant]
    spec fn inv(&self) -> bool {
        &&& self.matrix.wf()
        &&& self.row <= self.matrix@.len()
        &&& self.row < self.matrix@.len() ==> self.col < self.matrix@[0].len()
        &&& self.row == self.matrix@.len() ==> self.col == 0
    }

    /// The next entry in row-major order, where one is left; after the last one, `None`,
    /// however often it is asked.
    pub fn next(&mut self) -> (r: Option<&'a T>)
        ensures
            final(self).source() == old(self).source(),
            old(self).position() <= row_major(old(self).source()).len(),
            old(self).position() < row_major(old(self).source()).len() ==> (r matches Some(v)
                && *v == row_major(old(self).source())[old(self).position() as int]
                && final(self).position() == old(self).position() + 1),
            old(self).position() == row_major(old(self).source()).len() ==> (r is None
                && final(self).position() == old(self).position()),
    {
        proof {
            use_type_invariant(&*self);
        }
        let ghost source = self.matrix@;
        let ghost width = source[0].len() as int;
        let ghost i = self.row as int;
        let ghost j = self.col as int;
        let rows = self.matrix.rows();
        if self.row < rows.len() {
            let row = &rows[self.row];
            assert(row@ == table(*rows)[i] && source[i].len() == width);
            assert(self.col < row.len());
            let v = &row[self.col];
            proof {
                lemma_row_major_index(source, i, j);
                assert(i * width + j + 1 <= source.len() * width) by (nonlinear_arith)
                    requires
                        0 <= i < source.len(),
                        0 <= j < width,
                ;
            }
            if self.col + 1 < row.len() {
                self.col = self.col + 1;
            } else {
                self.col = 0;
                self.row = self.row + 1;
                assert((i + 1) * width + 0 == i * width + j + 1) by (nonlinear_arith)
                    requires
                        j + 1 == width,
                ;
            }
            Some(v)
        } else {
            None
        }
    }
}

impl<T> Matrix<T> {
    /// A fresh cursor before the first entry: the entries come row by row, each row from
    /// its first entry to its last.
    pub fn iterate(&self) -> (it: MatrixIter<'_, T>)
        ensures
            it.source() == self@,
            it.position() == 0,
    {
        proof {
            use_type_invariant(self);
        }
        MatrixIter { matrix: self, row: 0, col: 0 }
    }
}

/// In row-major order the entry in row `i` and column `j` comes at place `i * c + j`, where
/// `c` is the length of a row: behind all of the rows before row `i`.
pub proof fn lemma_row_major_index<T>(rows: Seq<Seq<T>>, i: int, j: int)
    requires
        rectangular(rows),
        0 <= i < rows.len(),
        0 <= j < rows[0].len(),
    ensures
        0 <= i * rows[0].len() + j < row_major(rows).len(),
        row_major(rows)[i * rows[0].len() + j] == rows[i][j],
{
    let c = rows[0].len() as int;
    let k = i * c + j;
    assert(0 <= k < rows.len() * c) by (nonlinear_arith)
        requires
            0 <= i < rows.len(),
            0 <= j < c,
            k == i * c + j,
    ;
    vstd::arithmetic::div_mod::lemma_fundamental_div_mod_converse(k, c, i, j);
}

/// The first `n` rows, one after the other, are the first `n * c` entries in row-major
/// order, where `c` is the length of a row.
proof fn lemma_row_major_prefix<T>(rows: Seq<Seq<T>>, n: int)
    requires
        rectangular(rows),
        0 <= n <= rows.len(),
    ensures
        0 <= n * rows[0].len() <= row_major(rows).len(),
        rows.take(n).flatten() == row_major(rows).take(n * rows[0].len()),
    decreases n,
{
    let c = rows[0].len() as int;
    let all = row_major(rows);
    assert(0 <= n * c <= rows.len() * c) by (nonlinear_arith)
        requires
            0 <= n <= rows.len(),
            0 <= c,
    ;
    if n == 0 {
        assert(n * c == 0) by (nonlinear_arith)
            requires
                n == 0,
        ;
    } else {
        lemma_row_major_prefix(rows, n - 1);
        let before = (n - 1) * c;
        assert(n * c == before + c) by (nonlinear_arith)
            requires
                before == (n - 1) * c,
        ;
        assert(rows.take(n) == rows.take(n - 1).push(rows[n - 1]));
        rows.take(n - 1).lemma_flatten_push(rows[n - 1]);
        assert forall|k: int| before <= k < n * c implies all[k] == rows[n - 1][k - before] by {
            lemma_row_major_index(rows, n - 1, k - before);
        }
    }
}

/// Row-major order is the order of the rows, one after the other: all of the first row,
/// then all of the second, and so on. There are as many entries as rows times columns.
pub proof fn lemma_row_major_is_rows_in_order<T>(rows: Seq<Seq<T>>)
    requires
        rectangular(rows),
    ensures
        row_major(rows) == rows.flatten(),
        row_major(rows).len() == rows.len() * rows[0].len(),
{
    lemma_row_major_prefix(rows, rows.len() as int);
    assert(rows.take(rows.len() as int) == rows);
}

} // verus!
