use vstd::prelude::*;

use vstd::std_specs::cmp::PartialEqSpec;

use crate::error::MatrixError;

verus! {

/// A `rows x cols` grid of elements stored in row-major order: the element at
/// row `r`, column `c` lives at offset `r * cols + c` of the backing vector.
#[derive(Debug)]
pub struct Matrix<A> {
    rows: usize,
    cols: usize,
    val: Vec<A>,
}

impl<A> Matrix<A> {
    /// Number of rows.
    pub closed spec fn nrows(&self) -> nat {
        self.rows as nat
    }

    /// Number of columns.
    pub closed spec fn ncols(&self) -> nat {
        self.cols as nat
    }

    /// The elements in row-major order.
    pub closed spec fn elems(&self) -> Seq<A> {
        self.val@
    }

    /// The backing sequence holds exactly one element per cell.
    pub open spec fn wf(&self) -> bool {
        self.elems().len() == self.nrows() * self.ncols()
    }

    /// The element at row `r`, column `c`.
    pub open spec fn at(&self, r: int, c: int) -> A {
        cell(self.elems(), self.ncols(), r, c)
    }

    /// `(r, c)` names a cell of the matrix.
    pub open spec fn in_bounds(&self, r: int, c: int) -> bool {
        0 <= r < self.nrows() && 0 <= c < self.ncols()
    }

    /// `self` is a well-formed `cols x rows` matrix whose element `(i, j)` is
    /// element `(j, i)` of `m`.
    pub open spec fn is_transpose_of(&self, m: &Matrix<A>) -> bool {
        &&& self.wf()
        &&& self.nrows() == m.ncols()
        &&& self.ncols() == m.nrows()
        &&& forall|i: int, j: int| self.in_bounds(i, j) ==> #[trigger] self.at(i, j) == m.at(j, i)
    }

    /// Both matrices have the same number of rows and of columns.
    pub open spec fn same_shape<B>(&self, o: &Matrix<B>) -> bool {
        self.nrows() == o.nrows() && self.ncols() == o.ncols()
    }
}

impl<A: PartialEq> PartialEq for Matrix<A> {
    /// Structural equality: same shape and pairwise equal elements.
    fn eq(&self, o: &Matrix<A>) -> (r: bool) {
        self.rows == o.rows && self.cols == o.cols && self.val == o.val
    }
}

impl<A: PartialEq> vstd::std_specs::cmp::PartialEqSpecImpl for Matrix<A> {
    open spec fn obeys_eq_spec() -> bool {
        A::obeys_eq_spec()
    }

    open spec fn eq_spec(&self, o: &Matrix<A>) -> bool {
        &&& self.same_shape(o)
        &&& self.elems().len() == o.elems().len()
        &&& forall|k: int|
            0 <= k < self.elems().len() ==> (#[trigger] self.elems()[k]).eq_spec(&o.elems()[k])
    }
}

/// The element of row-major sequence `s`, with rows of `width` elements, at
/// row `r` and column `c`.
pub open spec fn cell<A>(s: Seq<A>, width: nat, r: int, c: int) -> A {
    s[r * width + c]
}

/// A cell's row-major offset lies inside the grid.
proof fn lemma_offset_below(r: int, c: int, rows: int, cols: int)
    requires
        0 <= r < rows,
        0 <= c < cols,
    ensures
        0 <= r * cols + c < rows * cols,
{
    assert(0 <= r * cols) by (nonlinear_arith)
        requires
            0 <= r,
            0 <= cols,
    ;
    assert(r * cols + c < rows * cols) by (nonlinear_arith)
        requires
            0 <= r < rows,
            0 <= c < cols,
    ;
}

impl<A: Copy> Matrix<A> {
    /// A `rows x cols` matrix with every element equal to `val`.
    pub fn new(rows: usize, cols: usize, val: A) -> (m: Matrix<A>)
        requires
            rows * cols <= usize::MAX,
        ensures
            m.wf(),
            m.nrows() == rows,
            m.ncols() == cols,
            m.elems() == Seq::new((rows * cols) as nat, |_k: int| val),
    {
        let n: usize = rows * cols;
        let mut v: Vec<A> = Vec::with_capacity(n);
        let mut k: usize = 0;
        while k < n
            invariant
                k <= n,
                v@ == Seq::new(k as nat, |_i: int| val),
            decreases n - k,
        {
            v.push(val);
            k = k + 1;
        }
        Matrix { rows, cols, val: v }
    }

    /// A `rows x cols` matrix holding `val` in row-major order; fails with
    /// `DimensionMismatch` unless `val` has exactly `rows * cols` elements.
    pub fn new_with_val(rows: usize, cols: usize, val: Vec<A>) -> (r: Result<
        Matrix<A>,
        MatrixError,
    >)
        ensures
            match r {
                Ok(m) => {
                    &&& val@.len() == rows * cols
                    &&& m.wf()
                    &&& m.nrows() == rows
                    &&& m.ncols() == cols
                    &&& m.elems() == val@
                },
                Err(e) => val@.len() != rows * cols && e == MatrixError::DimensionMismatch,
            },
    {
        let len: usize = val.len();
        match rows.checked_mul(cols) {
            Some(n) => {
                if len != n {
                    return Err(MatrixError::DimensionMismatch);
                }
            },
            None => {
                return Err(MatrixError::DimensionMismatch);
            },
        }
        Ok(Matrix { rows, cols, val })
    }

    /// The element at `(row, col)`; fails with `IndexOutOfRange` unless
    /// `row < rows` and `col < cols`.
    pub fn index(&self, row: usize, col: usize) -> (r: Result<A, MatrixError>)
        requires
            self.wf(),
        ensures
            self.in_bounds(row as int, col as int) ==> r == Ok::<A, MatrixError>(
                self.at(row as int, col as int),
            ),
            !self.in_bounds(row as int, col as int) ==> r == Err::<A, MatrixError>(
                MatrixError::IndexOutOfRange,
            ),
    {
        if row >= self.rows || col >= self.cols {
            return Err(MatrixError::IndexOutOfRange);
        }
        Ok(self.get(row, col))
    }

    /// The element at `(row, col)`, for a cell known to exist.
    pub(crate) fn get(&self, row: usize, col: usize) -> (x: A)
        requires
            self.wf(),
            self.in_bounds(row as int, col as int),
        ensures
            x == self.at(row as int, col as int),
    {
        let n: usize = self.val.len();
        proof {
            lemma_offset_below(row as int, col as int, self.rows as int, self.cols as int);
        }
        self.val[row * self.cols + col]
    }

    /// Overwrites the element at `(row, col)` with `value`; fails with
    /// `IndexOutOfRange`, leaving the matrix unchanged, unless `row < rows`
    /// and `col < cols`. The shape never changes.
    pub fn insert(&mut self, row: usize, col: usize, value: A) -> (r: Result<(), MatrixError>)
        requires
            old(self).wf(),
        ensures
            final(self).wf(),
            final(self).same_shape(old(self)),
            old(self).in_bounds(row as int, col as int) ==> {
                &&& r == Ok::<(), MatrixError>(())
                &&& final(self).elems() == old(self).elems().update(
                    row as int * old(self).ncols() + col as int,
                    value,
                )
            },
            !old(self).in_bounds(row as int, col as int) ==> {
                &&& r == Err::<(), MatrixError>(MatrixError::IndexOutOfRange)
                &&& *final(self) == *old(self)
            },
    {
        if row >= self.rows || col >= self.cols {
            return Err(MatrixError::IndexOutOfRange);
        }
        let n: usize = self.val.len();
        proof {
            lemma_offset_below(row as int, col as int, self.rows as int, self.cols as int);
        }
        let k: usize = row * self.cols + col;
        self.val.set(k, value);
        Ok(())
    }

    /// The shape `(rows, cols)`.
    pub fn dimensions(&self) -> (d: (usize, usize))
        ensures
            d.0 == self.nrows(),
            d.1 == self.ncols(),
    {
        (self.rows, self.cols)
    }

    /// Applies `f` to every element, keeping shape and order.
    pub fn map<F, B>(&self, f: F) -> (m: Matrix<B>)
        where
            F: Fn(A) -> B,
        requires
            self.wf(),
            forall|k: int| 0 <= k < self.elems().len() ==> f.requires((self.elems()[k],)),
        ensures
            m.wf(),
            m.same_shape(self),
            m.elems().len() == self.elems().len(),
            forall|k: int|
                0 <= k < self.elems().len() ==> f.ensures((self.elems()[k],), #[trigger] m.elems()[k]),
    {
        let n: usize = self.val.len();
        let mut v: Vec<B> = Vec::with_capacity(n);
        let mut k: usize = 0;
        while k < n
            invariant
                n == self.elems().len(),
                forall|i: int| 0 <= i < n ==> f.requires((self.elems()[i],)),
                k <= n,
                v@.len() == k,
                forall|i: int| 0 <= i < k ==> f.ensures((self.elems()[i],), #[trigger] v@[i]),
            decreases n - k,
        {
            v.push(f(self.val[k]));
            k = k + 1;
        }
        Matrix { rows: self.rows, cols: self.cols, val: v }
    }

    /// Combines the elements at equal positions of `self` and `m` with `f`;
    /// fails with `ShapeMismatch` unless both have the same shape.
    pub fn map2<F, B: Copy, C>(&self, m: &Matrix<B>, f: F) -> (r: Result<Matrix<C>, MatrixError>)
        where
            F: Fn(A, B) -> C,
        requires
            self.wf(),
            m.wf(),
            self.same_shape(m) ==> forall|k: int|
                0 <= k < self.elems().len() ==> f.requires((self.elems()[k], m.elems()[k])),
        ensures
            match r {
                Ok(out) => {
                    &&& self.same_shape(m)
                    &&& out.wf()
                    &&& out.same_shape(self)
                    &&& out.elems().len() == self.elems().len()
                    &&& forall|k: int|
                        0 <= k < self.elems().len() ==> f.ensures(
                            (self.elems()[k], m.elems()[k]),
                            #[trigger] out.elems()[k],
                        )
                },
                Err(e) => !self.same_shape(m) && e == MatrixError::ShapeMismatch,
            },
    {
        if self.rows != m.rows || self.cols != m.cols {
            return Err(MatrixError::ShapeMismatch);
        }
        let n: usize = self.val.len();
        let mut v: Vec<C> = Vec::with_capacity(n);
        let mut k: usize = 0;
        while k < n
            invariant
                n == self.elems().len(),
                n == m.elems().len(),
                forall|i: int| 0 <= i < n ==> f.requires((self.elems()[i], m.elems()[i])),
                k <= n,
                v@.len() == k,
                forall|i: int|
                    0 <= i < k ==> f.ensures((self.elems()[i], m.elems()[i]), #[trigger] v@[i]),
            decreases n - k,
        {
            v.push(f(self.val[k], m.val[k]));
            k = k + 1;
        }
        Ok(Matrix { rows: self.rows, cols: self.cols, val: v })
    }

    /// The `cols x rows` matrix whose element `(i, j)` is element `(j, i)` of
    /// `self`.
    pub fn transpose(&self) -> (t: Matrix<A>)
        requires
            self.wf(),
        ensures
            t.is_transpose_of(self),
    {
        let rows: usize = self.rows;
        let cols: usize = self.cols;
        let n: usize = self.val.len();
        let mut v: Vec<A> = Vec::with_capacity(n);
        let mut i: usize = 0;
        while i < cols
            invariant
                self.wf(),
                n == self.elems().len(),
                rows == self.nrows(),
                cols == self.ncols(),
                i <= cols,
                v@.len() == i * rows,
                forall|a: int, b: int|
                    0 <= a < i && 0 <= b < rows ==> #[trigger] cell(v@, rows as nat, a, b)
                        == self.at(b, a),
            decreases cols - i,
        {
            let mut j: usize = 0;
            while j < rows
                invariant
                    self.wf(),
                    n == self.elems().len(),
                    rows == self.nrows(),
                    cols == self.ncols(),
                    i < cols,
                    j <= rows,
                    v@.len() == i * rows + j,
                    forall|a: int, b: int|
                        (0 <= a < i && 0 <= b < rows) || (a == i && 0 <= b < j)
                            ==> #[trigger] cell(v@, rows as nat, a, b) == self.at(b, a),
                decreases rows - j,
            {
                proof {
                    lemma_offset_below(j as int, i as int, rows as int, cols as int);
                }
                let x: A = self.val[j * cols + i];
                let ghost before: Seq<A> = v@;
                v.push(x);
                proof {
                    assert forall|a: int, b: int|
                        (0 <= a < i && 0 <= b < rows) || (a == i && 0 <= b <= j) implies
                        #[trigger] cell(v@, rows as nat, a, b) == self.at(b, a) by {
                        if a < i {
                            lemma_offset_below(a, b, i as int, rows as int);
                            assert(cell(v@, rows as nat, a, b) == cell(before, rows as nat, a, b));
                        } else if b < j {
                            assert(cell(v@, rows as nat, a, b) == cell(before, rows as nat, a, b));
                        }
                    }
                }
                j = j + 1;
            }
            proof {
                assert(i * rows + rows == (i + 1) * rows) by (nonlinear_arith);
            }
            i = i + 1;
        }
        proof {
            assert(cols * rows == rows * cols) by (nonlinear_arith);
        }
        Matrix { rows: cols, cols: rows, val: v }
    }
}

} // verus!
