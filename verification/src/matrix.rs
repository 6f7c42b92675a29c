//! A rectangular matrix over any type with `+`, `*` and a zero, and the inner product.
use crate::scalar::lawful;
use core::ops::{Add, Mul};
use vstd::prelude::*;
use vstd::std_specs::cmp::PartialEqSpec;
use vstd::std_specs::ops::{AddSpec, MulSpec};

verus! {

/// Why a matrix operation was refused.
#[derive(Debug)]
pub enum MatrixError {
    /// The shapes handed in do not fit the operation.
    InvalidArgument,
    /// A matrix was found in a state that its constructor rules out.
    BadInternalState,
}

/// A rectangular table of values with at least one row and at least one column.
#[derive(Debug)]
pub struct Matrix<T> {
    rows: Vec<Vec<T>>,
}

/// The rows of `rows` as sequences, in their order.
pub open spec fn table<T>(rows: Vec<Vec<T>>) -> Seq<Seq<T>> {
    Seq::new(rows@.len(), |i: int| rows@[i]@)
}

/// There is a first row, it has a first entry, and every row is as long as it.
pub open spec fn rectangular<T>(rows: Seq<Seq<T>>) -> bool {
    &&& rows.len() >= 1
    &&& rows[0].len() >= 1
    &&& forall|i: int| 0 <= i < rows.len() ==> (#[trigger] rows[i]).len() == rows[0].len()
}

/// Both tables have as many rows, and their first rows are equally long.
pub open spec fn same_shape<T>(a: Seq<Seq<T>>, b: Seq<Seq<T>>) -> bool {
    a.len() == b.len() && a[0].len() == b[0].len()
}

/// Every row of `rows` has an entry `j`.
pub open spec fn has_column<T>(rows: Seq<Seq<T>>, j: int) -> bool {
    forall|i: int| 0 <= i < rows.len() ==> 0 <= j < (#[trigger] rows[i]).len()
}

/// Column `j` of `rows`: entry `j` of every row, in row order.
pub open spec fn column<T>(rows: Seq<Seq<T>>, j: int) -> Seq<T> {
    Seq::new(rows.len(), |i: int| rows[i][j])
}

/// The inner product of `lhs` and `rhs`, summed from `zero` on, left to right:
/// `zero + lhs[0] * rhs[0] + lhs[1] * rhs[1] + ...`, with the `+` and `*` of `T`.
pub open spec fn dot_from<T: Add<Output = T> + Mul<Output = T>>(
    zero: T,
    lhs: Seq<T>,
    rhs: Seq<T>,
) -> T
    decreases lhs.len(),
{
    if lhs.len() == 0 {
        zero
    } else {
        dot_from(zero, lhs.drop_last(), rhs.drop_last()).add_spec(
            lhs.last().mul_spec(rhs.last()),
        )
    }
}

/// Every product and every partial sum of `dot_from(zero, lhs, rhs)` is one that `T` can
/// form: for a machine integer, none of them leaves the type's range.
pub open spec fn dot_defined<T: Add<Output = T> + Mul<Output = T>>(
    zero: T,
    lhs: Seq<T>,
    rhs: Seq<T>,
) -> bool
    decreases lhs.len(),
{
    lhs.len() == 0 || {
        &&& dot_defined(zero, lhs.drop_last(), rhs.drop_last())
        &&& lhs.last().mul_req(rhs.last())
        &&& dot_from(zero, lhs.drop_last(), rhs.drop_last()).add_req(
            lhs.last().mul_spec(rhs.last()),
        )
    }
}

/// The table whose entry `(i, j)` is `a[i][j] + b[i][j]`.
pub open spec fn sum_of<T: Add<Output = T>>(a: Seq<Seq<T>>, b: Seq<Seq<T>>) -> Seq<Seq<T>> {
    Seq::new(a.len(), |i: int| Seq::new(a[i].len(), |j: int| a[i][j].add_spec(b[i][j])))
}

/// Every sum of `sum_of(a, b)` is one that `T` can form.
pub open spec fn sum_defined<T: Add<Output = T>>(a: Seq<Seq<T>>, b: Seq<Seq<T>>) -> bool {
    forall|i: int, j: int|
        0 <= i < a.len() && 0 <= j < a[i].len() ==> (#[trigger] a[i][j]).add_req(b[i][j])
}

/// The table whose entry `(i, j)` is the inner product of row `i` of `a` and column `j` of
/// `b`, summed from `zero` on.
pub open spec fn product_of<T: Add<Output = T> + Mul<Output = T>>(
    zero: T,
    a: Seq<Seq<T>>,
    b: Seq<Seq<T>>,
) -> Seq<Seq<T>> {
    Seq::new(a.len(), |i: int| Seq::new(b[0].len(), |j: int| dot_from(zero, a[i], column(b, j))))
}

/// Every inner product of `product_of(zero, a, b)` is one that `T` can form.
pub open spec fn product_defined<T: Add<Output = T> + Mul<Output = T>>(
    zero: T,
    a: Seq<Seq<T>>,
    b: Seq<Seq<T>>,
) -> bool {
    forall|i: int, j: int|
        0 <= i < a.len() && 0 <= j < b[0].len() ==> #[trigger] dot_defined(
            zero,
            a[i],
            column(b, j),
        )
}

/// Both rows are equally long and hold, place by place, entries that `T` holds equal.
pub open spec fn rows_equal<T: PartialEq>(a: Seq<T>, b: Seq<T>) -> bool {
    &&& a.len() == b.len()
    &&& forall|j: int| 0 <= j < a.len() ==> (#[trigger] a[j]).eq_spec(&b[j])
}

/// Both tables have as many rows and hold, place by place, rows that are equal.
pub open spec fn tables_equal<T: PartialEq>(a: Seq<Seq<T>>, b: Seq<Seq<T>>) -> bool {
    &&& a.len() == b.len()
    &&& forall|i: int| 0 <= i < a.len() ==> rows_equal(#[trigger] a[i], b[i])
}

/// `v` is the inner product of `lhs` and `rhs`, whichever lawful zero the sum starts from.
spec fn is_dot<T: Add<Output = T> + Mul<Output = T> + Default>(
    v: T,
    lhs: Seq<T>,
    rhs: Seq<T>,
) -> bool {
    forall|zero: T| #[trigger] lawful(zero) ==> v == dot_from(zero, lhs, rhs)
}

impl<T> View for Matrix<T> {
    type V = Seq<Seq<T>>;

    /// The rows of the matrix, each the sequence of its entries.
    closed spec fn view(&self) -> Seq<Seq<T>> {
        table(self.rows)
    }
}

impl<T> Matrix<T> {
    /// What holds of every matrix: it has a first row, which has a first entry, and every
    /// row is as long as it.
    #[verifier::type_invariant]
    pub open spec fn wf(&self) -> bool {
        rectangular(self@)
    }

    /// Builds a matrix from its rows, which are kept as given. Refused are no rows at all,
    /// rows without entries and rows of unequal length.
    pub fn new(rows: Vec<Vec<T>>) -> (r: Result<Self, MatrixError>)
        ensures
            rectangular(table(rows)) ==> (r matches Ok(m) && m@ == table(rows)),
            !rectangular(table(rows)) ==> r matches Err(MatrixError::InvalidArgument),
    {
        if rows.len() == 0 {
            return Err(MatrixError::InvalidArgument);
        }
        let row_length = rows[0].len();
        if row_length == 0 {
            return Err(MatrixError::InvalidArgument);
        }
        let mut i: usize = 0;
        while i < rows.len()
            invariant
                i <= rows@.len(),
                rows@.len() >= 1,
                row_length >= 1,
                row_length == rows@[0]@.len(),
                forall|k: int| 0 <= k < i ==> (#[trigger] table(rows)[k]).len() == row_length,
            decreases rows@.len() - i,
        {
            if rows[i].len() != row_length {
                assert(table(rows)[i as int].len() != table(rows)[0].len());
                return Err(MatrixError::InvalidArgument);
            }
            i = i + 1;
        }
        Ok(Matrix { rows })
    }

    /// The rows, in their order.
    pub fn rows(&self) -> (rows: &Vec<Vec<T>>)
        ensures
            self.wf(),
            table(*rows) == self@,
    {
        proof {
            use_type_invariant(self);
        }
        &self.rows
    }

    /// The number of rows, which is at least one.
    pub fn row_num(&self) -> (n: usize)
        ensures
            self.wf(),
            n == self@.len(),
    {
        proof {
            use_type_invariant(self);
        }
        self.rows.len()
    }

    /// The number of columns, which is at least one: the length of the first row, and so
    /// of every row.
    pub fn col_num(&self) -> (n: usize)
        ensures
            self.wf(),
            n == self@[0].len(),
    {
        proof {
            use_type_invariant(self);
        }
        self.rows[0].len()
    }
}

impl<T: Copy> Matrix<T> {
    /// A copy of row `i`, where there is one.
    pub fn row(&self, i: usize) -> (r: Option<Vec<T>>)
        ensures
            i < self@.len() ==> (r matches Some(v) && v@ == self@[i as int]),
            i >= self@.len() ==> r is None,
    {
        if i < self.rows.len() {
            Some(vstd::slice::slice_to_vec(self.rows[i].as_slice()))
        } else {
            None
        }
    }

    /// A copy of column `j`, where every row reaches that far.
    pub fn col(&self, j: usize) -> (r: Option<Vec<T>>)
        ensures
            has_column(self@, j as int) ==> (r matches Some(v) && v@ == column(self@, j as int)),
            !has_column(self@, j as int) ==> r is None,
    {
        let mut col: Vec<T> = Vec::new();
        let mut i: usize = 0;
        while i < self.rows.len()
            invariant
                i <= self@.len(),
                self@.len() == self.rows@.len(),
                col@.len() == i,
                forall|k: int| 0 <= k < i ==> j < (#[trigger] self@[k]).len(),
                forall|k: int| 0 <= k < i ==> #[trigger] col@[k] == self@[k][j as int],
            decreases self@.len() - i,
        {
            let row = &self.rows[i];
            if j < row.len() {
                col.push(row[j]);
            } else {
                assert(self@[i as int].len() <= j);
                return None;
            }
            i = i + 1;
        }
        Some(col)
    }

    /// A copy of the entry in row `i` and column `j`, where there is one.
    pub fn val(&self, i: usize, j: usize) -> (r: Option<T>)
        ensures
            i < self@.len() && j < self@[i as int].len() ==> r == Some(self@[i as int][j as int]),
            !(i < self@.len() && j < self@[i as int].len()) ==> r is None,
    {
        if i < self.rows.len() {
            let row = &self.rows[i];
            if j < row.len() {
                return Some(row[j]);
            }
        }
        None
    }
}

impl<T> Matrix<T> where T: Add<Output = T> + Mul<Output = T> + Default + Copy {
    /// The matrix product of `self` and `rhs`: entry `(i, j)` is the inner product of row `i`
    /// of `self` and column `j` of `rhs`. Refused where `self` has not as many columns as
    /// `rhs` has rows. Neither operand is changed.
    pub fn mul(&self, rhs: &Self) -> (r: Result<Self, MatrixError>)
        requires
            self@[0].len() == rhs@.len() ==> exists|zero: T| #[trigger]
                lawful(zero) && product_defined(zero, self@, rhs@),
        ensures
            self@[0].len() != rhs@.len() ==> r matches Err(MatrixError::InvalidArgument),
            self@[0].len() == rhs@.len() ==> (r matches Ok(m) && m.wf() && m@.len() == self@.len()
                && m@[0].len() == rhs@[0].len() && forall|zero: T| #[trigger]
                lawful(zero) ==> m@ == product_of(zero, self@, rhs@)),
    {
        proof {
            use_type_invariant(self);
            use_type_invariant(rhs);
        }
        if self.col_num() != rhs.row_num() {
            return Err(MatrixError::InvalidArgument);
        }
        let ghost zero = choose|zero: T| #[trigger]
            lawful(zero) && product_defined(zero, self@, rhs@);
        let mut rows: Vec<Vec<T>> = Vec::new();
        let mut i: usize = 0;
        while i < self.row_num()
            invariant
                self.wf(),
                rhs.wf(),
                self@[0].len() == rhs@.len(),
                lawful(zero),
                product_defined(zero, self@, rhs@),
                i <= self@.len(),
                rows@.len() == i,
                forall|k: int| 0 <= k < i ==> (#[trigger] rows@[k])@.len() == rhs@[0].len(),
                forall|k: int, l: int|
                    0 <= k < i && 0 <= l < rhs@[0].len() ==> is_dot(
                        #[trigger] rows@[k]@[l],
                        self@[k],
                        column(rhs@, l),
                    ),
            decreases self@.len() - i,
        {
            let mut new_row: Vec<T> = Vec::new();
            let row = match self.row(i) {
                Some(row) => row,
                None => {
                    return Err(MatrixError::BadInternalState);
                },
            };
            let mut j: usize = 0;
            while j < rhs.col_num()
                invariant
                    self.wf(),
                    rhs.wf(),
                    self@[0].len() == rhs@.len(),
                    lawful(zero),
                    product_defined(zero, self@, rhs@),
                    i < self@.len(),
                    row@ == self@[i as int],
                    j <= rhs@[0].len(),
                    new_row@.len() == j,
                    forall|l: int|
                        0 <= l < j ==> is_dot(
                            #[trigger] new_row@[l],
                            self@[i as int],
                            column(rhs@, l),
                        ),
                decreases rhs@[0].len() - j,
            {
                let col = match rhs.col(j) {
                    Some(col) => col,
                    None => {
                        return Err(MatrixError::BadInternalState);
                    },
                };
                let val = match dot(row.as_slice(), col.as_slice()) {
                    Ok(val) => val,
                    Err(e) => {
                        return Err(e);
                    },
                };
                new_row.push(val);
                j = j + 1;
            }
            rows.push(new_row);
            i = i + 1;
        }
        let m = Matrix { rows };
        proof {
            assert forall|z: T| #[trigger] lawful(z) implies m@ == product_of(z, self@, rhs@) by {
                assert(m@ =~~= product_of(z, self@, rhs@));
            }
        }
        Ok(m)
    }

    /// The entry-wise sum of `self` and `rhs`. Refused where the shapes differ. Neither
    /// operand is changed.
    pub fn add(&self, rhs: &Self) -> (r: Result<Self, MatrixError>)
        requires
            same_shape(self@, rhs@) ==> sum_defined(self@, rhs@),
        ensures
            !same_shape(self@, rhs@) ==> r matches Err(MatrixError::InvalidArgument),
            same_shape(self@, rhs@) ==> (r matches Ok(m) && m.wf() && same_shape(m@, self@)
                && (T::obeys_add_spec() ==> m@ == sum_of(self@, rhs@))),
    {
        proof {
            use_type_invariant(self);
            use_type_invariant(rhs);
        }
        if self.col_num() != rhs.col_num() || self.row_num() != rhs.row_num() {
            return Err(MatrixError::InvalidArgument);
        }
        let mut rows: Vec<Vec<T>> = Vec::new();
        let mut i: usize = 0;
        while i < self.row_num()
            invariant
                self.wf(),
                rhs.wf(),
                same_shape(self@, rhs@),
                sum_defined(self@, rhs@),
                i <= self@.len(),
                rows@.len() == i,
                forall|k: int| 0 <= k < i ==> (#[trigger] rows@[k])@.len() == self@[0].len(),
                T::obeys_add_spec() ==> forall|k: int, l: int|
                    0 <= k < i && 0 <= l < self@[0].len() ==> #[trigger] rows@[k]@[l]
                        == self@[k][l].add_spec(rhs@[k][l]),
            decreases self@.len() - i,
        {
            let mut row: Vec<T> = Vec::new();
            let mut j: usize = 0;
            while j < self.col_num()
                invariant
                    self.wf(),
                    rhs.wf(),
                    same_shape(self@, rhs@),
                    sum_defined(self@, rhs@),
                    i < self@.len(),
                    j <= self@[0].len(),
                    row@.len() == j,
                    T::obeys_add_spec() ==> forall|l: int|
                        0 <= l < j ==> #[trigger] row@[l] == self@[i as int][l].add_spec(
                            rhs@[i as int][l],
                        ),
                decreases self@[0].len() - j,
            {
                let value_a = match self.val(i, j) {
                    Some(value) => value,
                    None => {
                        return Err(MatrixError::BadInternalState);
                    },
                };
                let value_b = match rhs.val(i, j) {
                    Some(value) => value,
                    None => {
                        return Err(MatrixError::BadInternalState);
                    },
                };
                row.push(value_a + value_b);
                j = j + 1;
            }
            rows.push(row);
            i = i + 1;
        }
        let m = Matrix { rows };
        proof {
            if T::obeys_add_spec() {
                assert(m@ =~~= sum_of(self@, rhs@));
            }
        }
        Ok(m)
    }
}

impl<T: Copy> Clone for Matrix<T> {
    /// A matrix with the same entries.
    fn clone(&self) -> (r: Self)
        ensures
            r@ == self@,
    {
        proof {
            use_type_invariant(self);
        }
        let mut rows: Vec<Vec<T>> = Vec::new();
        let mut i: usize = 0;
        while i < self.rows.len()
            invariant
                i <= self.rows@.len(),
                rows@.len() == i,
                forall|k: int| 0 <= k < i ==> (#[trigger] rows@[k])@ == self.rows@[k]@,
            decreases self.rows@.len() - i,
        {
            rows.push(vstd::slice::slice_to_vec(self.rows[i].as_slice()));
            i = i + 1;
        }
        assert(table(rows) =~= table(self.rows));
        let r = Matrix { rows };
        r
    }
}

impl<T: PartialEq> PartialEq for Matrix<T> {
    /// Whether both matrices have the same shape and, place by place, entries that `T`
    /// holds equal.
    fn eq(&self, other: &Self) -> (r: bool) {
        proof {
            if self.rows.eq_spec(&other.rows) {
                assert(forall|i: int|
                    0 <= i < self@.len() ==> rows_equal(#[trigger] self@[i], other@[i]));
            }
            if tables_equal(self@, other@) {
                assert forall|i: int| 0 <= i < self.rows.len() implies (#[trigger] self.rows[i])
                    .eq_spec(&other.rows[i]) by {
                    assert(rows_equal(self@[i], other@[i]));
                }
            }
        }
        self.rows == other.rows
    }
}

impl<T: PartialEq> vstd::std_specs::cmp::PartialEqSpecImpl for Matrix<T> {
    open spec fn obeys_eq_spec() -> bool {
        T::obeys_eq_spec()
    }

    open spec fn eq_spec(&self, other: &Self) -> bool {
        tables_equal(self@, other@)
    }
}

impl<T: Eq> Eq for Matrix<T> {

}

/// The inner product of two slices: `lhs[0] * rhs[0] + lhs[1] * rhs[1] + ...`, summed from
/// the default value of `T` on, left to right. Refused where the lengths differ.
pub fn dot<T>(lhs: &[T], rhs: &[T]) -> (r: Result<T, MatrixError>) where
    T: Add<Output = T> + Mul<Output = T> + Default + Copy,

    requires
        lhs@.len() == rhs@.len() ==> exists|zero: T| #[trigger]
            lawful(zero) && dot_defined(zero, lhs@, rhs@),
    ensures
        lhs@.len() != rhs@.len() ==> r matches Err(MatrixError::InvalidArgument),
        lhs@.len() == rhs@.len() ==> (r matches Ok(v) && forall|zero: T| #[trigger]
            lawful(zero) ==> v == dot_from(zero, lhs@, rhs@)),
{
    if lhs.len() != rhs.len() {
        return Err(MatrixError::InvalidArgument);
    }
    let mut sum = T::default();
    let ghost zero = sum;
    let mut i: usize = 0;
    while i < lhs.len()
        invariant
            i <= lhs@.len(),
            lhs@.len() == rhs@.len(),
            lawful(zero),
            dot_defined(zero, lhs@, rhs@),
            sum == dot_from(zero, lhs@.take(i as int), rhs@.take(i as int)),
        decreases lhs@.len() - i,
    {
        proof {
            lemma_dot_defined_prefix(zero, lhs@, rhs@, i as int + 1);
            assert(lhs@.take(i as int + 1) == lhs@.take(i as int).push(lhs@[i as int]));
            assert(rhs@.take(i as int + 1) == rhs@.take(i as int).push(rhs@[i as int]));
            lemma_dot_push(
                zero,
                lhs@.take(i as int),
                rhs@.take(i as int),
                lhs@[i as int],
                rhs@[i as int],
            );
        }
        sum = sum + lhs[i] * rhs[i];
        i = i + 1;
    }
    proof {
        assert(lhs@.take(i as int) == lhs@);
        assert(rhs@.take(i as int) == rhs@);
    }
    Ok(sum)
}

/// One more pair adds one product to the sum, and asks for that product and that sum.
pub proof fn lemma_dot_push<T: Add<Output = T> + Mul<Output = T>>(
    zero: T,
    lhs: Seq<T>,
    rhs: Seq<T>,
    a: T,
    b: T,
)
    ensures
        dot_from(zero, lhs.push(a), rhs.push(b)) == dot_from(zero, lhs, rhs).add_spec(
            a.mul_spec(b),
        ),
        dot_defined(zero, lhs.push(a), rhs.push(b)) <==> dot_defined(zero, lhs, rhs) && a.mul_req(
            b,
        ) && dot_from(zero, lhs, rhs).add_req(a.mul_spec(b)),
{
    assert(lhs.push(a).drop_last() == lhs);
    assert(rhs.push(b).drop_last() == rhs);
}

/// Where a whole inner product can be formed, so can that of every pair of prefixes.
pub proof fn lemma_dot_defined_prefix<T: Add<Output = T> + Mul<Output = T>>(
    zero: T,
    lhs: Seq<T>,
    rhs: Seq<T>,
    n: int,
)
    requires
        lhs.len() == rhs.len(),
        0 <= n <= lhs.len(),
        dot_defined(zero, lhs, rhs),
    ensures
        dot_defined(zero, lhs.take(n), rhs.take(n)),
    decreases lhs.len(),
{
    if n == lhs.len() {
        assert(lhs.take(n) == lhs);
        assert(rhs.take(n) == rhs);
    } else {
        lemma_dot_defined_prefix(zero, lhs.drop_last(), rhs.drop_last(), n);
        assert(lhs.drop_last().take(n) == lhs.take(n));
        assert(rhs.drop_last().take(n) == rhs.take(n));
    }
}

/// Where `==` on `T` holds of equal values and of no others, `==` on matrices holds of
/// matrices with the same table and of no others: the same shape, and in every place the
/// same entry.
pub proof fn lemma_eq_is_same_table<T: PartialEq>(a: Matrix<T>, b: Matrix<T>)
    requires
        forall|x: T, y: T| #[trigger] x.eq_spec(&y) <==> x == y,
    ensures
        a.eq_spec(&b) <==> a@ == b@,
{
    if a.eq_spec(&b) {
        assert(forall|i: int| 0 <= i < a@.len() ==> #[trigger] a@[i] == b@[i]);
        assert(a@ =~= b@);
    }
}

/// `mul` leaves its operands as they were: whatever `a.mul(&b)` returns, a copy of `a` and
/// a copy of `b` taken before the call are equal to `a` and `b` after it, where `==` on
/// `T` holds between every value and itself.
pub proof fn lemma_mul_keeps_operands<T>(
    a: Matrix<T>,
    b: Matrix<T>,
    a_before: Matrix<T>,
    b_before: Matrix<T>,
    r: Result<Matrix<T>, MatrixError>,
) where T: Add<Output = T> + Mul<Output = T> + Default + Copy + PartialEq
    requires
        call_ensures(Matrix::<T>::clone, (&a,), a_before),
        call_ensures(Matrix::<T>::clone, (&b,), b_before),
        call_ensures(Matrix::<T>::mul, (&a, &b), r),
        forall|x: T| #[trigger] x.eq_spec(&x),
    ensures
        a.eq_spec(&a_before),
        b.eq_spec(&b_before),
{
}

/// `add` leaves its operands as they were: whatever `a.add(&b)` returns, a copy of `a` and
/// a copy of `b` taken before the call are equal to `a` and `b` after it, where `==` on
/// `T` holds between every value and itself.
pub proof fn lemma_add_keeps_operands<T>(
    a: Matrix<T>,
    b: Matrix<T>,
    a_before: Matrix<T>,
    b_before: Matrix<T>,
    r: Result<Matrix<T>, MatrixError>,
) where T: Add<Output = T> + Mul<Output = T> + Default + Copy + PartialEq
    requires
        call_ensures(Matrix::<T>::clone, (&a,), a_before),
        call_ensures(Matrix::<T>::clone, (&b,), b_before),
        call_ensures(Matrix::<T>::add, (&a, &b), r),
        forall|x: T| #[trigger] x.eq_spec(&x),
    ensures
        a.eq_spec(&a_before),
        b.eq_spec(&b_before),
{
}

} // verus!
