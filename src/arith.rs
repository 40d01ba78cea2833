use vstd::prelude::*;

use crate::dense::Matrix;
use crate::error::MatrixError;
use crate::scalar::Scalar;

verus! {

impl<A: Scalar> Matrix<A> {
    /// Every element-wise sum `self + m` is representable.
    pub open spec fn sum_fits(&self, m: &Matrix<A>) -> bool {
        forall|k: int|
            0 <= k < self.elems().len() ==> A::fits(
                #[trigger] self.elems()[k].value() + m.elems()[k].value(),
            )
    }

    /// Every element-wise difference `self - m` is representable.
    pub open spec fn diff_fits(&self, m: &Matrix<A>) -> bool {
        forall|k: int|
            0 <= k < self.elems().len() ==> A::fits(
                #[trigger] self.elems()[k].value() - m.elems()[k].value(),
            )
    }

    /// Every product of an element with `n` is representable.
    pub open spec fn scale_fits(&self, n: A) -> bool {
        forall|k: int|
            0 <= k < self.elems().len() ==> A::fits(#[trigger] self.elems()[k].value() * n.value())
    }

    /// `sum_{j < n} v[j] * self[i][j]`, added from left to right.
    pub open spec fn row_dot(&self, v: Seq<A>, i: int, n: int) -> int
        decreases n,
    {
        if n <= 0 {
            0
        } else {
            self.row_dot(v, i, n - 1) + v[n - 1].value() * self.at(i, n - 1).value()
        }
    }

    /// Each product `v[j] * self[i][j]` and each partial row sum of the
    /// matrix-vector product is representable.
    pub open spec fn dot_fits(&self, v: Seq<A>) -> bool {
        forall|i: int, j: int|
            0 <= i < self.nrows() && 0 <= j < self.ncols() ==> {
                &&& A::fits(v[j].value() * (#[trigger] self.at(i, j)).value())
                &&& A::fits(self.row_dot(v, i, j + 1))
            }
    }

    /// The element-wise sum; fails with `ShapeMismatch` unless both matrices
    /// have the same shape.
    pub fn add(&self, m: &Matrix<A>) -> (r: Result<Matrix<A>, MatrixError>)
        requires
            self.wf(),
            m.wf(),
            self.same_shape(m) ==> self.sum_fits(m),
        ensures
            match r {
                Ok(out) => {
                    &&& self.same_shape(m)
                    &&& out.wf()
                    &&& out.same_shape(self)
                    &&& out.elems().len() == self.elems().len()
                    &&& forall|k: int|
                        0 <= k < self.elems().len() ==> (#[trigger] out.elems()[k]).value()
                            == self.elems()[k].value() + m.elems()[k].value()
                },
                Err(e) => !self.same_shape(m) && e == MatrixError::ShapeMismatch,
            },
    {
        let plus = |x: A, y: A| -> (z: A)
            requires
                A::fits(x.value() + y.value()),
            ensures
                z.value() == x.value() + y.value(),
        {
            x.plus(y)
        };
        self.map2(m, plus)
    }

    /// The element-wise difference `self - m`; fails with `ShapeMismatch`
    /// unless both matrices have the same shape.
    pub fn sub(&self, m: &Matrix<A>) -> (r: Result<Matrix<A>, MatrixError>)
        requires
            self.wf(),
            m.wf(),
            self.same_shape(m) ==> self.diff_fits(m),
        ensures
            match r {
                Ok(out) => {
                    &&& self.same_shape(m)
                    &&& out.wf()
                    &&& out.same_shape(self)
                    &&& out.elems().len() == self.elems().len()
                    &&& forall|k: int|
                        0 <= k < self.elems().len() ==> (#[trigger] out.elems()[k]).value()
                            == self.elems()[k].value() - m.elems()[k].value()
                },
                Err(e) => !self.same_shape(m) && e == MatrixError::ShapeMismatch,
            },
    {
        let minus = |x: A, y: A| -> (z: A)
            requires
                A::fits(x.value() - y.value()),
            ensures
                z.value() == x.value() - y.value(),
        {
            x.minus(y)
        };
        self.map2(m, minus)
    }

    /// Every element multiplied by `n`.
    pub fn scale(&self, n: A) -> (out: Matrix<A>)
        requires
            self.wf(),
            self.scale_fits(n),
        ensures
            out.wf(),
            out.same_shape(self),
            out.elems().len() == self.elems().len(),
            forall|k: int|
                0 <= k < self.elems().len() ==> (#[trigger] out.elems()[k]).value()
                    == self.elems()[k].value() * n.value(),
    {
        let times = |x: A| -> (y: A)
            requires
                A::fits(x.value() * n.value()),
            ensures
                y.value() == x.value() * n.value(),
        {
            x.times(n)
        };
        self.map(times)
    }

    /// The matrix-vector product: entry `i` is `sum_j v[j] * self[i][j]`.
    /// Fails with `DimensionMismatch` unless `v` has one entry per column.
    pub fn vec_mult(&self, v: &Vec<A>) -> (r: Result<Vec<A>, MatrixError>)
        requires
            self.wf(),
            v@.len() == self.ncols() ==> self.dot_fits(v@),
        ensures
            match r {
                Ok(out) => {
                    &&& v@.len() == self.ncols()
                    &&& out@.len() == self.nrows()
                    &&& forall|i: int|
                        0 <= i < self.nrows() ==> (#[trigger] out@[i]).value() == self.row_dot(
                            v@,
                            i,
                            self.ncols() as int,
                        )
                },
                Err(e) => v@.len() != self.ncols() && e == MatrixError::DimensionMismatch,
            },
    {
        let (rows, cols) = self.dimensions();
        if v.len() != cols {
            return Err(MatrixError::DimensionMismatch);
        }
        let mut out: Vec<A> = Vec::with_capacity(rows);
        let mut i: usize = 0;
        while i < rows
            invariant
                self.wf(),
                rows == self.nrows(),
                cols == self.ncols(),
                v@.len() == cols,
                self.dot_fits(v@),
                i <= rows,
                out@.len() == i,
                forall|a: int|
                    0 <= a < i ==> (#[trigger] out@[a]).value() == self.row_dot(v@, a, cols as int),
            decreases rows - i,
        {
            let mut acc: A = A::zero();
            let mut j: usize = 0;
            while j < cols
                invariant
                    self.wf(),
                    rows == self.nrows(),
                    cols == self.ncols(),
                    v@.len() == cols,
                    self.dot_fits(v@),
                    i < rows,
                    j <= cols,
                    acc.value() == self.row_dot(v@, i as int, j as int),
                decreases cols - j,
            {
                let x: A = self.get(i, j);
                assert(A::fits(v@[j as int].value() * self.at(i as int, j as int).value()));
                assert(A::fits(self.row_dot(v@, i as int, j + 1)));
                let term: A = v[j].times(x);
                acc = acc.plus(term);
                j = j + 1;
            }
            out.push(acc);
            i = i + 1;
        }
        Ok(out)
    }
}

} // verus!
