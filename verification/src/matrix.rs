//! Rectangular integer matrices: legality (all rows equally long) and
//! squareness checks, minors, and the determinant by recursive cofactor
//! expansion along the first row.

use vstd::prelude::*;

use crate::math::fits_i64;
use crate::math::lemma_i64_mul_fits_i128;

verus! {

/// A rectangular table of numbers, stored as rows.
#[derive(Debug)]
pub struct Matrix {
    value: Vec<Vec<i64>>,
}

impl View for Matrix {
    type V = Seq<Seq<int>>;

    closed spec fn view(&self) -> Seq<Seq<int>> {
        self.value@.map(|_i: int, row: Vec<i64>| row@.map(|_j: int, x: i64| x as int))
    }
}

/// Why a determinant could not be computed.
#[derive(Debug, Clone, Copy, PartialEq, Eq, Structural)]
pub enum MatrixError {
    /// The rows do not all have the same length.
    NotLegal,
    /// The row count differs from the column count.
    NotSquare,
}

/// True iff every row has the same length as the first row. A matrix with no
/// rows is legal and has zero columns.
pub open spec fn is_legal_spec(m: Seq<Seq<int>>) -> bool {
    forall|i: int| 0 <= i < m.len() ==> #[trigger] m[i].len() == m[0].len()
}

/// The common column count of a legal matrix.
pub open spec fn cols_spec(m: Seq<Seq<int>>) -> int {
    if m.len() == 0 {
        0
    } else {
        m[0].len() as int
    }
}

/// True iff the row count equals the column count; meaningful only for a
/// legal matrix.
pub open spec fn is_square_spec(m: Seq<Seq<int>>) -> bool {
    m.len() == cols_spec(m)
}

/// The minor of `m`: `m` with row `x` and column `y` deleted.
pub open spec fn minor_spec(m: Seq<Seq<int>>, x: int, y: int) -> Seq<Seq<int>> {
    Seq::new((m.len() - 1) as nat, |i: int| {
        if i < x {
            m[i].remove(y)
        } else {
            m[i + 1].remove(y)
        }
    })
}

/// The sign of the cofactor for column `i` of the first row: `(-1)^i`.
pub open spec fn sign_spec(i: int) -> int {
    if i % 2 == 0 {
        1
    } else {
        -1
    }
}

/// The first `k` terms of the cofactor expansion of `m` along its first row.
pub open spec fn det_partial(m: Seq<Seq<int>>, k: int) -> int
    decreases m.len(), 0int, k,
        when m.len() >= 1
{
    if k <= 0 {
        0
    } else {
        det_partial(m, k - 1) + sign_spec(k - 1) * m[0][k - 1] * det_spec(
            minor_spec(m, 0, k - 1),
        )
    }
}

/// The determinant, by cofactor expansion along the first row. The empty
/// matrix has determinant 1 (the multiplicative identity), a 1-by-1 matrix
/// its sole element.
pub open spec fn det_spec(m: Seq<Seq<int>>) -> int
    decreases m.len(), 1int, 0int,
{
    if m.len() == 0 {
        1
    } else if m.len() == 1 {
        m[0][0]
    } else {
        det_partial(m, m.len() as int)
    }
}

/// True iff every intermediate value of the cofactor expansion of `m` is
/// storable in an `i64`, so the expansion can be computed exactly: each
/// minor's own expansion fits, each minor's determinant fits, and every
/// running sum of the expansion fits.
pub open spec fn det_fits(m: Seq<Seq<int>>) -> bool
    decreases m.len(),
{
    if m.len() <= 1 {
        true
    } else {
        forall|i: int|
            #![trigger minor_spec(m, 0, i)]
            0 <= i < m.len() ==> {
                &&& det_fits(minor_spec(m, 0, i))
                &&& fits_i64(det_spec(minor_spec(m, 0, i)))
                &&& fits_i64(det_partial(m, i + 1))
            }
    }
}

/// Every column's term of the expansion of a fitting matrix fits.
pub proof fn lemma_det_fits_entry(m: Seq<Seq<int>>, i: int)
    requires
        det_fits(m),
        m.len() >= 2,
        0 <= i < m.len(),
    ensures
        det_fits(minor_spec(m, 0, i)),
        fits_i64(det_spec(minor_spec(m, 0, i))),
        fits_i64(det_partial(m, i + 1)),
{
    assert(minor_spec(m, 0, i).len() == m.len() - 1);
}

/// A minor of a legal matrix with at least one row and one column is legal,
/// and one row and one column shorter; a minor of a square matrix is square.
pub proof fn lemma_minor_legal(m: Seq<Seq<int>>, x: int, y: int)
    requires
        is_legal_spec(m),
        m.len() >= 1,
        0 <= x < m.len(),
        0 <= y < cols_spec(m),
    ensures
        minor_spec(m, x, y).len() == m.len() - 1,
        is_legal_spec(minor_spec(m, x, y)),
        m.len() >= 2 ==> cols_spec(minor_spec(m, x, y)) == cols_spec(m) - 1,
        is_square_spec(m) ==> is_square_spec(minor_spec(m, x, y)),
{
    let sub = minor_spec(m, x, y);
    assert forall|i: int| 0 <= i < sub.len() implies #[trigger] sub[i].len() == sub[0].len() by {
        assert(m[if i < x { i } else { i + 1 }].len() == m[0].len());
        assert(m[if 0 < x { 0 } else { 1 }].len() == m[0].len());
    }
}

impl Matrix {
    /// A fresh table: a single row of zero columns. It is legal (every row
    /// as long as the first) but not square (one row, zero columns).
    pub fn new() -> (r: Matrix)
        ensures
            r@ == seq![Seq::<int>::empty()],
            is_legal_spec(r@),
            !is_square_spec(r@),
    {
        let mut rows: Vec<Vec<i64>> = Vec::new();
        rows.push(Vec::new());
        let r = Matrix { value: rows };
        proof {
            assert(r@ =~~= seq![Seq::<int>::empty()]);
        }
        r
    }

    /// A matrix holding the given rows.
    pub fn from_vec(v: Vec<Vec<i64>>) -> (r: Matrix)
        ensures
            r@ == v@.map(|_i: int, row: Vec<i64>| row@.map(|_j: int, x: i64| x as int)),
            r@.len() == v@.len(),
            forall|i: int| 0 <= i < v@.len() ==> #[trigger] r@[i].len() == v@[i]@.len(),
    {
        Matrix { value: v }
    }

    /// The number of rows.
    pub fn rows(&self) -> (r: usize)
        ensures
            r == self@.len(),
    {
        self.value.len()
    }

    /// The element in row `i`, column `j`.
    pub fn get(&self, i: usize, j: usize) -> (r: i64)
        requires
            i < self@.len(),
            j < self@[i as int].len(),
        ensures
            r as int == self@[i as int][j as int],
    {
        self.value[i][j]
    }

    /// True iff the matrix is a consistent rectangle: every row as long as
    /// the first. A matrix with no rows is legal.
    pub fn is_legal(&self) -> (r: bool)
        ensures
            r == is_legal_spec(self@),
    {
        if self.value.len() == 0 {
            return true;
        }
        let width = self.value[0].len();
        let n = self.value.len();
        let mut k: usize = 0;
        while k < n
            invariant
                n == self.value.len(),
                n >= 1,
                width == self.value@[0].len(),
                k <= n,
                forall|i: int| 0 <= i < k ==> #[trigger] self@[i].len() == self@[0].len(),
            decreases n - k,
        {
            if self.value[k].len() != width {
                assert(self@[k as int].len() != self@[0].len());
                return false;
            }
            k += 1;
        }
        true
    }

    /// True iff the row count equals the column count. Callers must check
    /// legality first: on an illegal matrix the answer is about the first
    /// row only.
    pub fn is_square(&self) -> (r: bool)
        requires
            is_legal_spec(self@),
        ensures
            r == is_square_spec(self@),
    {
        if self.value.len() == 0 {
            true
        } else {
            self.value.len() == self.value[0].len()
        }
    }
}

/// The minor of `mat`: a fresh matrix with row `x` and column `y` deleted.
pub fn get_cofactor(mat: &Matrix, x: usize, y: usize) -> (r: Matrix)
    requires
        is_legal_spec(mat@),
        x < mat@.len(),
        y < cols_spec(mat@),
    ensures
        r@ == minor_spec(mat@, x as int, y as int),
{
    let n = mat.value.len();
    let mut out: Vec<Vec<i64>> = Vec::new();
    let mut i: usize = 0;
    while i < n
        invariant
            n == mat.value.len(),
            is_legal_spec(mat@),
            x < n,
            y < cols_spec(mat@),
            i <= n,
            out@.len() == (if i <= x { i as int } else { i - 1 }),
            forall|r0: int| 0 <= r0 < out@.len() ==> (#[trigger] out@[r0])@.map(
                |_j: int, e: i64| e as int,
            ) == (if r0 < x {
                mat@[r0].remove(y as int)
            } else {
                mat@[r0 + 1].remove(y as int)
            }),
        decreases n - i,
    {
        if i != x {
            assert(mat@[i as int].len() == mat@[0].len());
            let w = mat.value[i].len();
            let mut row: Vec<i64> = Vec::new();
            let mut j: usize = 0;
            while j < w
                invariant
                    i < n,
                    n == mat.value.len(),
                    w == mat.value@[i as int].len(),
                    y < w,
                    j <= w,
                    row@.len() == (if j <= y { j as int } else { j - 1 }),
                    forall|c: int| 0 <= c < row@.len() ==> row@[c] as int == (if c < y {
                        mat@[i as int][c]
                    } else {
                        mat@[i as int][c + 1]
                    }),
                decreases w - j,
            {
                if j != y {
                    row.push(mat.value[i][j]);
                }
                j += 1;
            }
            proof {
                assert(row@.map(|_j: int, e: i64| e as int) =~= mat@[i as int].remove(y as int));
            }
            out.push(row);
        }
        i += 1;
    }
    let r = Matrix { value: out };
    proof {
        assert(r@ =~= minor_spec(mat@, x as int, y as int));
    }
    r
}

/// The determinant of a square matrix. An illegal matrix is rejected before
/// any computation; a legal but non-square one is rejected as not square.
pub trait Det {
    spec fn det_req(&self) -> bool;

    spec fn det_post(&self, r: Result<i64, MatrixError>) -> bool;

    spec fn det_n_req(&self, n: usize) -> bool;

    spec fn det_n_val(&self) -> int;

    fn det(&self) -> (r: Result<i64, MatrixError>)
        requires
            self.det_req(),
        ensures
            self.det_post(r),
    ;

    /// The raw cofactor expansion for a matrix already known to be a legal
    /// square of size `n`; `det` is the checked entry point.
    fn det_n(&self, n: usize) -> (r: i64)
        requires
            self.det_n_req(n),
        ensures
            r as int == self.det_n_val(),
    ;
}

impl Det for Matrix {
    open spec fn det_req(&self) -> bool {
        is_legal_spec(self@) && is_square_spec(self@) ==> det_fits(self@)
    }

    open spec fn det_post(&self, r: Result<i64, MatrixError>) -> bool {
        if !is_legal_spec(self@) {
            r == Err::<i64, MatrixError>(MatrixError::NotLegal)
        } else if !is_square_spec(self@) {
            r == Err::<i64, MatrixError>(MatrixError::NotSquare)
        } else {
            r matches Ok(d) && d as int == det_spec(self@)
        }
    }

    open spec fn det_n_req(&self, n: usize) -> bool {
        &&& is_legal_spec(self@)
        &&& is_square_spec(self@)
        &&& det_fits(self@)
        &&& n == self@.len()
    }

    open spec fn det_n_val(&self) -> int {
        det_spec(self@)
    }

    fn det(&self) -> (r: Result<i64, MatrixError>) {
        if !self.is_legal() {
            return Err(MatrixError::NotLegal);
        }
        if !self.is_square() {
            return Err(MatrixError::NotSquare);
        }
        Ok(self.det_n(self.value.len()))
    }

    fn det_n(&self, n: usize) -> (r: i64)
        decreases n,
    {
        if n == 0 {
            return 1;
        }
        if n == 1 {
            return self.value[0][0];
        }
        let mut d: i64 = 0;
        let mut i: usize = 0;
        while i < n
            invariant
                self.det_n_req(n),
                n >= 2,
                i <= n,
                d as int == det_partial(self@, i as int),
            decreases n - i,
        {
            proof {
                lemma_det_fits_entry(self@, i as int);
            }
            let cof = get_cofactor(self, 0, i);
            proof {
                lemma_minor_legal(self@, 0, i as int);
            }
            let sub = cof.det_n(n - 1);
            proof {
                lemma_i64_mul_fits_i128(self@[0][i as int], sub as int);
            }
            let prod: i128 = (self.value[0][i] as i128) * (sub as i128);
            let term: i128 = if i % 2 == 0 {
                prod
            } else {
                -prod
            };
            let s: i128 = (d as i128) + term;
            proof {
                let m0i = self@[0][i as int];
                let dsub = det_spec(minor_spec(self@, 0, i as int));
                if i % 2 == 0 {
                    assert(sign_spec(i as int) * m0i * dsub == m0i * dsub) by (nonlinear_arith)
                        requires
                            sign_spec(i as int) == 1,
                    ;
                } else {
                    assert(sign_spec(i as int) * m0i * dsub == -(m0i * dsub)) by (nonlinear_arith)
                        requires
                            sign_spec(i as int) == -1,
                    ;
                }
                assert(s == det_partial(self@, i as int + 1));
            }
            d = s as i64;
            i += 1;
        }
        d
    }
}

/// True iff `m` is an identity matrix: square, ones on the diagonal, zeroes
/// elsewhere.
pub open spec fn is_identity_spec(m: Seq<Seq<int>>) -> bool {
    &&& is_legal_spec(m)
    &&& is_square_spec(m)
    &&& forall|i: int, j: int|
        0 <= i < m.len() && 0 <= j < m.len() ==> #[trigger] m[i][j] == (if i == j {
            1int
        } else {
            0int
        })
}

proof fn lemma_det_partial_first_column_only(m: Seq<Seq<int>>, k: int)
    requires
        m.len() >= 2,
        is_legal_spec(m),
        is_square_spec(m),
        m[0][0] == 1,
        forall|j: int| 1 <= j < m.len() ==> #[trigger] m[0][j] == 0,
        1 <= k <= m.len(),
    ensures
        det_partial(m, k) == det_spec(minor_spec(m, 0, 0)),
    decreases k,
{
    if k == 1 {
        reveal_with_fuel(det_partial, 2);
        let dsub = det_spec(minor_spec(m, 0, 0));
        assert(sign_spec(0) * m[0][0] * dsub == dsub) by (nonlinear_arith)
            requires
                sign_spec(0) == 1,
                m[0][0] == 1,
        ;
    } else {
        lemma_det_partial_first_column_only(m, k - 1);
        assert(sign_spec(k - 1) * m[0][k - 1] * det_spec(minor_spec(m, 0, k - 1)) == 0)
            by (nonlinear_arith)
            requires
                m[0][k - 1] == 0,
        ;
    }
}

/// The determinant of every identity matrix is 1.
pub proof fn lemma_det_identity(m: Seq<Seq<int>>)
    requires
        is_identity_spec(m),
    ensures
        det_spec(m) == 1,
    decreases m.len(),
{
    if m.len() == 0 {
    } else if m.len() == 1 {
        assert(m[0][0] == 1);
    } else {
        let sub = minor_spec(m, 0, 0);
        lemma_minor_legal(m, 0, 0);
        assert forall|i: int, j: int|
            0 <= i < sub.len() && 0 <= j < sub.len() implies #[trigger] sub[i][j] == (if i == j {
            1int
        } else {
            0int
        }) by {
            assert(sub[i] == m[i + 1].remove(0));
            assert(m[i + 1].remove(0)[j] == m[i + 1][j + 1]);
        }
        lemma_det_identity(sub);
        lemma_det_partial_first_column_only(m, m.len() as int);
    }
}

} // verus!
