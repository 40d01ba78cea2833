use vstd::prelude::*;

use vstd::arithmetic::div_mod::{lemma_fundamental_div_mod, lemma_mod_pos_bound};
use vstd::laws_eq::obeys_concrete_eq;
use vstd::std_specs::cmp::PartialEqSpec;

use crate::dense::Matrix;

verus! {

/// Every offset below `rows * cols` is the row-major offset of one cell.
proof fn lemma_offset_split(k: int, rows: int, cols: int)
    requires
        0 <= rows,
        0 <= cols,
        0 <= k < rows * cols,
    ensures
        cols > 0,
        0 <= k / cols < rows,
        0 <= k % cols < cols,
        k == (k / cols) * cols + k % cols,
{
    assert(cols > 0) by (nonlinear_arith)
        requires
            0 <= rows,
            0 <= cols,
            0 <= k < rows * cols,
    ;
    lemma_fundamental_div_mod(k, cols);
    lemma_mod_pos_bound(k, cols);
    let q = k / cols;
    let c = k % cols;
    assert(0 <= q < rows && k == q * cols + c) by (nonlinear_arith)
        requires
            k == cols * q + c,
            0 <= c < cols,
            0 <= k < rows * cols,
    ;
}

/// Transposing twice gives back the starting matrix: the same shape and the
/// same elements in the same order.
pub proof fn lemma_transpose_twice<A>(m: Matrix<A>, t: Matrix<A>, u: Matrix<A>)
    requires
        m.wf(),
        t.is_transpose_of(&m),
        u.is_transpose_of(&t),
    ensures
        u.same_shape(&m),
        u.elems() == m.elems(),
{
    let rows = m.nrows() as int;
    let cols = m.ncols() as int;
    assert forall|k: int| 0 <= k < m.elems().len() implies u.elems()[k] == m.elems()[k] by {
        lemma_offset_split(k, rows, cols);
        let r = k / cols;
        let c = k % cols;
        assert(u.at(r, c) == t.at(c, r));
        assert(t.at(c, r) == m.at(r, c));
    }
    assert(u.elems() =~= m.elems());
}

/// Matrices compare equal exactly when they have the same shape and the same
/// elements in the same order, for an element type whose `==` is plain
/// equality.
pub proof fn lemma_eq_is_structural<A: PartialEq>(a: Matrix<A>, b: Matrix<A>)
    requires
        obeys_concrete_eq::<A>(),
    ensures
        <Matrix<A> as PartialEqSpec>::obeys_eq_spec(),
        a.eq_spec(&b) <==> (a.same_shape(&b) && a.elems() == b.elems()),
{
    reveal(obeys_concrete_eq);
    if a.same_shape(&b) && a.elems() == b.elems() {
        assert forall|k: int| 0 <= k < a.elems().len() implies (#[trigger] a.elems()[k]).eq_spec(
            &b.elems()[k],
        ) by {}
    }
    if a.eq_spec(&b) {
        assert(a.elems() =~= b.elems());
    }
}

} // verus!
