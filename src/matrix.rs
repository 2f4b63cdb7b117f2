//! A matrix: a fixed grid of `rows() x cols()` elements, both positive, stored
//! row by row and indexed from 1 on both axes.
use core::ops::{Add, Mul, Sub};
use vstd::arithmetic::div_mod::lemma_fundamental_div_mod_converse;
use vstd::pervasive::strictly_cloned;
use vstd::prelude::*;
use vstd::std_specs::ops::{AddSpec, MulSpec, SubSpec};
use crate::error::LinalgError;
use crate::number::Number;
use crate::seqops::{
    add_defined, clone_is_copy, dot, dot_defined, dot_prefix, scale_all, scale_defined,
    scaled_by_clone, seq_add, seq_scale, seq_sub, sub_defined, zip_add, zip_sub,
};

verus! {

/// A grid of elements; the element at row `l` and column `c`, counting from 1,
/// is `cell(l - 1, c - 1)`.
#[derive(Debug, Clone, PartialEq)]
pub struct Matrix<T> {
    rows: usize,
    cols: usize,
    vals: Vec<T>,
}

impl<T> View for Matrix<T> {
    type V = Seq<T>;

    /// The elements row by row.
    closed spec fn view(&self) -> Seq<T> {
        self.vals@
    }
}

/// The cell at row `l` and column `c` of a matrix with `cols` columns, both
/// counted from 0.
pub open spec fn cell_index(l: int, c: int, cols: int) -> int {
    l * cols + c
}

/// Position `i` of a walk from `start` by steps of `step`.
pub open spec fn strided(start: int, i: int, step: int) -> int {
    start + i * step
}

/// Clones of `v[start]`, `v[start + step]`, ..., `count` of them.
fn gather<T: Clone>(v: &Vec<T>, start: usize, step: usize, count: usize) -> (r: Vec<T>)
    requires
        forall|i: int| 0 <= i < count ==> #[trigger] strided(start as int, i, step as int) < v@.len(),
    ensures
        r@.len() == count,
        forall|i: int|
            0 <= i < count ==> cloned(v@[strided(start as int, i, step as int)], #[trigger] r@[i]),
{
    let mut r: Vec<T> = Vec::with_capacity(count);
    let mut i: usize = 0;
    while i < count
        invariant
            i <= count,
            r@.len() == i,
            forall|i: int|
                0 <= i < count ==> #[trigger] strided(start as int, i, step as int) < v@.len(),
            forall|j: int|
                0 <= j < i ==> cloned(v@[strided(start as int, j, step as int)], #[trigger] r@[j]),
        decreases count - i,
    {
        assert(strided(start as int, i as int, step as int) < v@.len());
        assert((i as int) * (step as int) < v@.len()) by (nonlinear_arith)
            requires
                start as int + (i as int) * (step as int) < v@.len(),
                start >= 0,
        ;
        let len = v.len();
        assert(len == v@.len());
        let off = i * step;
        let x = v[start + off].clone();
        r.push(x);
        i = i + 1;
    }
    r
}

/// `j = l * cols + c` with `c < cols` splits back into `l` and `c`, and lies in
/// a grid of `rows` rows when `l < rows`.
proof fn lemma_cell_index(l: int, c: int, rows: int, cols: int)
    requires
        0 <= l < rows,
        0 <= c < cols,
    ensures
        0 <= cell_index(l, c, cols) < rows * cols,
        cell_index(l, c, cols) / cols == l,
        cell_index(l, c, cols) % cols == c,
{
    lemma_fundamental_div_mod_converse(l * cols + c, cols, l, c);
    assert(0 <= l * cols + c < rows * cols) by (nonlinear_arith)
        requires
            0 <= l < rows,
            0 <= c < cols,
    ;
}

impl<T> Matrix<T> {
    pub closed spec fn nrows(&self) -> nat {
        self.rows as nat
    }

    pub closed spec fn ncols(&self) -> nat {
        self.cols as nat
    }

    /// Both dimensions are positive and every cell is held.
    pub open spec fn wf(&self) -> bool {
        &&& self.nrows() > 0
        &&& self.ncols() > 0
        &&& self@.len() == self.nrows() * self.ncols()
    }

    /// The element at row `l` and column `c`, counting from 0.
    pub open spec fn cell(&self, l: int, c: int) -> T {
        self@[cell_index(l, c, self.ncols() as int)]
    }

    /// Row `l`, counting from 0.
    pub open spec fn row_of(&self, l: int) -> Seq<T> {
        Seq::new(self.ncols(), |k: int| self.cell(l, k))
    }

    /// Column `c`, counting from 0.
    pub open spec fn col_of(&self, c: int) -> Seq<T> {
        Seq::new(self.nrows(), |k: int| self.cell(k, c))
    }

    pub fn rows(&self) -> (r: usize)
        ensures
            r == self.nrows(),
    {
        self.rows
    }

    pub fn cols(&self) -> (r: usize)
        ensures
            r == self.ncols(),
    {
        self.cols
    }

    /// The number of rows and of columns.
    pub fn dims(&self) -> (r: (usize, usize))
        ensures
            r.0 == self.nrows(),
            r.1 == self.ncols(),
    {
        (self.rows, self.cols)
    }

    pub fn is_square(&self) -> (r: bool)
        ensures
            r == (self.nrows() == self.ncols()),
    {
        self.rows == self.cols
    }

    /// The matrix whose cell at row `l` and column `c` is `f(l, c)`, counting
    /// from 1, called row by row; refused when either dimension is zero.
    pub fn new(rows: usize, cols: usize, f: impl Fn(usize, usize) -> T) -> (r: Result<
        Matrix<T>,
        LinalgError,
    >)
        requires
            rows * cols <= usize::MAX,
            forall|l: usize, c: usize|
                1 <= l <= rows && 1 <= c <= cols ==> #[trigger] f.requires((l, c)),
        ensures
            match r {
                Ok(m) => rows > 0 && cols > 0 && m.wf() && m.nrows() == rows && m.ncols() == cols
                    && forall|l: int, c: int|
                    0 <= l < rows && 0 <= c < cols ==> f.ensures(
                        ((l + 1) as usize, (c + 1) as usize),
                        #[trigger] m.cell(l, c),
                    ),
                Err(e) => (rows == 0 || cols == 0) && e == LinalgError::InvalidDimension,
            },
    {
        if rows == 0 || cols == 0 {
            return Err(LinalgError::InvalidDimension);
        }
        let n = rows * cols;
        let mut vals: Vec<T> = Vec::with_capacity(n);
        let mut j: usize = 0;
        while j < n
            invariant
                n == rows * cols,
                cols > 0,
                j <= n,
                vals@.len() == j,
                forall|l: usize, c: usize|
                    1 <= l <= rows && 1 <= c <= cols ==> #[trigger] f.requires((l, c)),
                forall|i: int|
                    0 <= i < j ==> f.ensures(
                        ((i / cols as int + 1) as usize, (i % cols as int + 1) as usize),
                        #[trigger] vals@[i],
                    ),
            decreases n - j,
        {
            let l = j / cols;
            let c = j % cols;
            assert(l < rows) by (nonlinear_arith)
                requires
                    l == j / cols,
                    j < rows * cols,
                    cols > 0,
            ;
            let x = f(l + 1, c + 1);
            vals.push(x);
            j = j + 1;
        }
        let m = Matrix { rows, cols, vals };
        assert forall|l: int, c: int| 0 <= l < rows && 0 <= c < cols implies f.ensures(
            ((l + 1) as usize, (c + 1) as usize),
            #[trigger] m.cell(l, c),
        ) by {
            lemma_cell_index(l, c, rows as int, cols as int);
            let i = cell_index(l, c, cols as int);
            assert(vals@[i] == m.cell(l, c));
        }
        Ok(m)
    }
    /// The cell at row `l` and column `c`, counting from 1; refused when either
    /// is zero or past its bound.
    pub fn index(&self, l: usize, c: usize) -> (r: Result<&T, LinalgError>)
        requires
            self.wf(),
        ensures
            match r {
                Ok(x) => 1 <= l <= self.nrows() && 1 <= c <= self.ncols() && *x == self.cell(
                    l - 1,
                    c - 1,
                ),
                Err(e) => (l == 0 || l > self.nrows() || c == 0 || c > self.ncols()) && e
                    == LinalgError::IndexOutOfBounds,
            },
    {
        if l == 0 || l > self.rows || c == 0 || c > self.cols {
            return Err(LinalgError::IndexOutOfBounds);
        }
        proof {
            lemma_cell_index(l - 1, c - 1, self.rows as int, self.cols as int);
            assert((l - 1) * self.cols <= cell_index(l - 1, c - 1, self.cols as int));
        }
        let len = self.vals.len();
        assert(len == self@.len());
        Ok(&self.vals[(l - 1) * self.cols + (c - 1)])
    }

    /// Replaces the cell at row `l` and column `c`, counting from 1; refused,
    /// with the matrix left as it was, when either is zero or past its bound.
    pub fn set(&mut self, l: usize, c: usize, x: T) -> (r: Result<(), LinalgError>)
        requires
            old(self).wf(),
        ensures
            final(self).wf(),
            final(self).nrows() == old(self).nrows(),
            final(self).ncols() == old(self).ncols(),
            match r {
                Ok(_) => 1 <= l <= old(self).nrows() && 1 <= c <= old(self).ncols() && final(self)@
                    == old(self)@.update(cell_index(l - 1, c - 1, old(self).ncols() as int), x),
                Err(e) => (l == 0 || l > old(self).nrows() || c == 0 || c > old(self).ncols()) && e
                    == LinalgError::IndexOutOfBounds && final(self)@ == old(self)@,
            },
    {
        if l == 0 || l > self.rows || c == 0 || c > self.cols {
            return Err(LinalgError::IndexOutOfBounds);
        }
        proof {
            lemma_cell_index(l - 1, c - 1, self.rows as int, self.cols as int);
            assert((l - 1) * self.cols <= cell_index(l - 1, c - 1, self.cols as int));
        }
        let len = self.vals.len();
        assert(len == self@.len());
        let j = (l - 1) * self.cols + (c - 1);
        self.vals.set(j, x);
        Ok(())
    }

    /// The matrix of the first `rows * cols` elements of `vals`, row by row;
    /// refused when a dimension is zero, or else when `vals` is shorter.
    pub fn from_vec(rows: usize, cols: usize, vals: Vec<T>) -> (r: Result<Matrix<T>, LinalgError>)
        ensures
            match r {
                Ok(m) => rows > 0 && cols > 0 && rows * cols <= vals@.len() && m.wf() && m.nrows()
                    == rows && m.ncols() == cols && m@ == vals@.subrange(0, rows * cols),
                Err(e) => if rows == 0 || cols == 0 {
                    e == LinalgError::InvalidDimension
                } else {
                    rows * cols > vals@.len() && e == LinalgError::DimensionMismatch
                },
            },
    {
        let len = vals.len();
        if rows == 0 || cols == 0 {
            return Err(LinalgError::InvalidDimension);
        }
        let n = match rows.checked_mul(cols) {
            Some(n) => n,
            None => {
                return Err(LinalgError::DimensionMismatch);
            },
        };
        if n > len {
            return Err(LinalgError::DimensionMismatch);
        }
        let mut vals = vals;
        vals.truncate(n);
        Ok(Matrix { rows, cols, vals })
    }

    /// Cell-wise sum; refused when the shapes differ.
    pub fn add<U, V>(self, other: Matrix<U>) -> (r: Result<Matrix<V>, LinalgError>)
        where
            T: Add<U, Output = V>,
        requires
            self.wf(),
            other.wf(),
            self.nrows() == other.nrows() && self.ncols() == other.ncols() ==> add_defined(
                self@,
                other@,
            ),
        ensures
            match r {
                Ok(m) => self.nrows() == other.nrows() && self.ncols() == other.ncols() && m.wf()
                    && m.nrows() == self.nrows() && m.ncols() == self.ncols() && (
                T::obeys_add_spec() ==> m@ == seq_add(self@, other@)),
                Err(e) => (self.nrows() != other.nrows() || self.ncols() != other.ncols()) && e
                    == LinalgError::DimensionMismatch,
            },
    {
        if self.rows != other.rows || self.cols != other.cols {
            return Err(LinalgError::DimensionMismatch);
        }
        Ok(Matrix { rows: self.rows, cols: self.cols, vals: zip_add(self.vals, other.vals) })
    }

    /// Cell-wise difference; refused when the shapes differ.
    pub fn sub<U, V>(self, other: Matrix<U>) -> (r: Result<Matrix<V>, LinalgError>)
        where
            T: Sub<U, Output = V>,
        requires
            self.wf(),
            other.wf(),
            self.nrows() == other.nrows() && self.ncols() == other.ncols() ==> sub_defined(
                self@,
                other@,
            ),
        ensures
            match r {
                Ok(m) => self.nrows() == other.nrows() && self.ncols() == other.ncols() && m.wf()
                    && m.nrows() == self.nrows() && m.ncols() == self.ncols() && (
                T::obeys_sub_spec() ==> m@ == seq_sub(self@, other@)),
                Err(e) => (self.nrows() != other.nrows() || self.ncols() != other.ncols()) && e
                    == LinalgError::DimensionMismatch,
            },
    {
        if self.rows != other.rows || self.cols != other.cols {
            return Err(LinalgError::DimensionMismatch);
        }
        Ok(Matrix { rows: self.rows, cols: self.cols, vals: zip_sub(self.vals, other.vals) })
    }

    /// Every cell multiplied by the scalar, the scalar being the left operand
    /// of each product.
    pub fn scale<U, V>(self, scalar: U) -> (r: Matrix<V>)
        where
            U: Mul<T, Output = V> + Clone,
        requires
            self.wf(),
            scale_defined(scalar, self@),
        ensures
            r.wf(),
            r.nrows() == self.nrows(),
            r.ncols() == self.ncols(),
            forall|i: int| 0 <= i < self@.len() ==> #[trigger] scaled_by_clone(scalar, self@[i], r@[i]),
            clone_is_copy::<U>() && U::obeys_mul_spec() ==> r@ == seq_scale(scalar, self@),
    {
        Matrix { rows: self.rows, cols: self.cols, vals: scale_all(scalar, self.vals) }
    }
}

impl<T: Number> Matrix<T> {
    /// The `rows x cols` matrix of zeros; refused when either dimension is zero.
    pub fn zeros(rows: usize, cols: usize) -> (r: Result<Matrix<T>, LinalgError>)
        requires
            rows * cols <= usize::MAX,
        ensures
            match r {
                Ok(m) => rows > 0 && cols > 0 && m.wf() && m.nrows() == rows && m.ncols() == cols
                    && forall|l: int, c: int|
                    0 <= l < rows && 0 <= c < cols ==> #[trigger] m.cell(l, c) == T::zero_spec(),
                Err(e) => (rows == 0 || cols == 0) && e == LinalgError::InvalidDimension,
            },
    {
        Matrix::new(rows, cols, |l: usize, c: usize| -> (z: T)
            ensures
                z == T::zero_spec(),
            { T::zero() })
    }
}

impl<T: Clone> Matrix<T> {
    /// The `rows x cols` matrix of clones of `val`; refused when either
    /// dimension is zero.
    pub fn repeat(val: T, rows: usize, cols: usize) -> (r: Result<Matrix<T>, LinalgError>)
        requires
            rows * cols <= usize::MAX,
        ensures
            match r {
                Ok(m) => rows > 0 && cols > 0 && m.wf() && m.nrows() == rows && m.ncols() == cols
                    && forall|l: int, c: int|
                    0 <= l < rows && 0 <= c < cols ==> cloned(val, #[trigger] m.cell(l, c)),
                Err(e) => (rows == 0 || cols == 0) && e == LinalgError::InvalidDimension,
            },
    {
        let v = &val;
        Matrix::new(rows, cols, |l: usize, c: usize| -> (x: T)
            ensures
                cloned(*v, x),
            { v.clone() })
    }

    /// The matrix product: with `self` of `R x K` and `other` of `K x C`, the
    /// `R x C` matrix whose cell `(l, c)` is row `l` of `self` times column `c`
    /// of `other`, accumulated from zero in increasing `k`; refused when `K`
    /// differs between the two.
    pub fn mul<U: Clone, V: Number + Add<V, Output = V>>(self, other: Matrix<U>) -> (r: Result<
        Matrix<V>,
        LinalgError,
    >)
        where
            T: Mul<U, Output = V>,
        requires
            self.wf(),
            other.wf(),
            clone_is_copy::<T>(),
            clone_is_copy::<U>(),
            T::obeys_mul_spec(),
            V::obeys_add_spec(),
            self.ncols() == other.nrows() ==> self.nrows() * other.ncols() <= usize::MAX,
            self.ncols() == other.nrows() ==> forall|l: int, c: int|
                0 <= l < self.nrows() && 0 <= c < other.ncols() ==> #[trigger] dot_defined(
                    self.row_of(l),
                    other.col_of(c),
                ),
        ensures
            match r {
                Ok(m) => self.ncols() == other.nrows() && m.wf() && m.nrows() == self.nrows()
                    && m.ncols() == other.ncols() && forall|l: int, c: int|
                    0 <= l < self.nrows() && 0 <= c < other.ncols() ==> #[trigger] m.cell(l, c)
                        == dot_prefix(self.row_of(l), other.col_of(c), self.ncols() as int),
                Err(e) => self.ncols() != other.nrows() && e == LinalgError::DimensionMismatch,
            },
    {
        if self.cols != other.rows {
            return Err(LinalgError::DimensionMismatch);
        }
        let rows = self.rows;
        let inner = self.cols;
        let cols = other.cols;
        let n = rows * cols;
        let mut vals: Vec<V> = Vec::with_capacity(n);
        let mut j: usize = 0;
        while j < n
            invariant
                self.wf(),
                other.wf(),
                rows == self.nrows(),
                inner == self.ncols(),
                inner == other.nrows(),
                cols == other.ncols(),
                n == rows * cols,
                j <= n,
                clone_is_copy::<T>(),
                clone_is_copy::<U>(),
                T::obeys_mul_spec(),
                V::obeys_add_spec(),
                forall|l: int, c: int|
                    0 <= l < self.nrows() && 0 <= c < other.ncols() ==> #[trigger] dot_defined(
                        self.row_of(l),
                        other.col_of(c),
                    ),
                vals@.len() == j,
                forall|i: int|
                    0 <= i < j ==> #[trigger] vals@[i] == dot_prefix(
                        self.row_of(i / cols as int),
                        other.col_of(i % cols as int),
                        inner as int,
                    ),
            decreases n - j,
        {
            let l = j / cols;
            let c = j % cols;
            assert(l < rows) by (nonlinear_arith)
                requires
                    l == j / cols,
                    j < rows * cols,
                    cols > 0,
            ;
            assert forall|k: int| 0 <= k < inner implies #[trigger] strided(
                (l * inner) as int,
                k,
                1,
            ) < self@.len() && self@[strided((l * inner) as int, k, 1)] == self.cell(l as int, k) by {
                lemma_cell_index(l as int, k, rows as int, inner as int);
            }
            assert forall|k: int| 0 <= k < inner implies #[trigger] strided(c as int, k, cols as int)
                < other@.len() && other@[strided(c as int, k, cols as int)] == other.cell(
                k,
                c as int,
            ) by {
                lemma_cell_index(k, c as int, inner as int, cols as int);
            }
            let alen = self.vals.len();
            proof {
                lemma_cell_index(l as int, 0, rows as int, inner as int);
                assert(alen == self@.len());
            }
            let row = gather(&self.vals, l * inner, 1, inner);
            let col = gather(&other.vals, c, cols, inner);
            assert(row@ =~= self.row_of(l as int)) by {
                assert forall|k: int| 0 <= k < inner implies row@[k] == self.row_of(l as int)[k] by {
                    assert(cloned(self@[strided((l * inner) as int, k, 1)], row@[k]));
                    assert(strictly_cloned(self@[strided((l * inner) as int, k, 1)], row@[k]) ==> self@[strided((l * inner) as int, k, 1)] == row@[k]);
                }
            }
            assert(col@ =~= other.col_of(c as int)) by {
                assert forall|k: int| 0 <= k < inner implies col@[k] == other.col_of(c as int)[k] by {
                    assert(cloned(other@[strided(c as int, k, cols as int)], col@[k]));
                    assert(strictly_cloned(other@[strided(c as int, k, cols as int)], col@[k]) ==> other@[strided(c as int, k, cols as int)] == col@[k]);
                }
            }
            assert(dot_defined(self.row_of(l as int), other.col_of(c as int)));
            let x = dot(row, col);
            vals.push(x);
            j = j + 1;
        }
        let m = Matrix { rows, cols, vals };
        assert forall|l: int, c: int| 0 <= l < self.nrows() && 0 <= c < other.ncols() implies #[trigger] m.cell(l, c)
            == dot_prefix(self.row_of(l), other.col_of(c), self.ncols() as int) by {
            lemma_cell_index(l, c, rows as int, cols as int);
            let i = cell_index(l, c, cols as int);
            assert(vals@[i] == m.cell(l, c));
        }
        Ok(m)
    }
}

} // verus!
