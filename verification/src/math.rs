//! Scalars and n-dimensional vectors with exact integer arithmetic:
//! elementwise addition and subtraction, scaling, dot product, the 3-D cross
//! product, and integer (floor) magnitude.

use vstd::prelude::*;

verus! {

/// True iff `x` can be stored in an `i64`.
pub open spec fn fits_i64(x: int) -> bool {
    i64::MIN <= x <= i64::MAX
}

/// The product of two `i64`-range values is within one quarter of the
/// `i128` range, so sums of such a product and an `i64` still fit an `i128`.
pub proof fn lemma_i64_mul_fits_i128(a: int, b: int)
    by (nonlinear_arith)
    requires
        fits_i64(a),
        fits_i64(b),
    ensures
        -0x40000000000000000000000000000000 <= a * b
            <= 0x40000000000000000000000000000000,
{
}

/// A single real-valued multiplier (one fixed-point integer).
#[derive(Debug, Clone, Copy, PartialEq, Eq, Structural)]
pub struct Scalar {
    value: i64,
}

impl View for Scalar {
    type V = int;

    closed spec fn view(&self) -> int {
        self.value as int
    }
}

impl Scalar {
    pub fn new(value: i64) -> (r: Scalar)
        ensures
            r@ == value as int,
    {
        Scalar { value }
    }

    pub fn value(&self) -> (r: i64)
        ensures
            r as int == self@,
    {
        self.value
    }
}

/// An ordered, fixed-length sequence of components; the dimension is set at
/// construction and never changes afterwards.
#[derive(Debug)]
pub struct Vector {
    value: Vec<i64>,
}

impl View for Vector {
    type V = Seq<int>;

    closed spec fn view(&self) -> Seq<int> {
        self.value@.map(|_i: int, x: i64| x as int)
    }
}

/// Every component of a vector's view is an `i64` value.
pub proof fn lemma_vector_components_fit(v: &Vector)
    ensures
        forall|k: int| 0 <= k < v@.len() ==> fits_i64(#[trigger] v@[k]),
{
    assert forall|k: int| 0 <= k < v@.len() implies fits_i64(#[trigger] v@[k]) by {
        assert(v@[k] == v.value@[k] as int);
    }
}

impl Clone for Vector {
    fn clone(&self) -> (r: Vector)
        ensures
            r@ == self@,
    {
        let n = self.value.len();
        let mut out: Vec<i64> = Vec::new();
        let mut k: usize = 0;
        while k < n
            invariant
                n == self.value.len(),
                k <= n,
                out@ == self.value@.take(k as int),
            decreases n - k,
        {
            out.push(self.value[k]);
            proof {
                assert(out@ =~= self.value@.take(k + 1));
            }
            k += 1;
        }
        proof {
            assert(out@ =~= self.value@);
        }
        Vector { value: out }
    }
}

impl PartialEq for Vector {
    fn eq(&self, other: &Self) -> (r: bool) {
        if self.value.len() != other.value.len() {
            assert(self@.len() != other@.len());
            return false;
        }
        let n = self.value.len();
        let mut k: usize = 0;
        while k < n
            invariant
                n == self.value.len(),
                n == other.value.len(),
                k <= n,
                forall|i: int| 0 <= i < k ==> self.value@[i] == other.value@[i],
            decreases n - k,
        {
            if self.value[k] != other.value[k] {
                assert(self@[k as int] != other@[k as int]);
                return false;
            }
            k += 1;
        }
        proof {
            assert(self@ =~= other@);
        }
        true
    }
}

impl vstd::std_specs::cmp::PartialEqSpecImpl for Vector {
    open spec fn obeys_eq_spec() -> bool {
        true
    }

    open spec fn eq_spec(&self, other: &Vector) -> bool {
        self@ == other@
    }
}

impl Eq for Vector {}

/// Elementwise sum of two equal-length component sequences.
pub open spec fn add_spec(a: Seq<int>, b: Seq<int>) -> Seq<int> {
    Seq::new(a.len(), |i: int| a[i] + b[i])
}

/// True iff every component of the elementwise sum is storable.
pub open spec fn add_fits(a: Seq<int>, b: Seq<int>) -> bool {
    forall|i: int| 0 <= i < a.len() ==> fits_i64(a[i] + b[i])
}

/// Elementwise difference of two equal-length component sequences.
pub open spec fn sub_spec(a: Seq<int>, b: Seq<int>) -> Seq<int> {
    Seq::new(a.len(), |i: int| a[i] - b[i])
}

/// True iff every component of the elementwise difference is storable.
pub open spec fn sub_fits(a: Seq<int>, b: Seq<int>) -> bool {
    forall|i: int| 0 <= i < a.len() ==> fits_i64(a[i] - b[i])
}

/// Every component multiplied by the scalar `s`.
pub open spec fn scale_spec(v: Seq<int>, s: int) -> Seq<int> {
    Seq::new(v.len(), |i: int| v[i] * s)
}

/// True iff every scaled component is storable.
pub open spec fn scale_fits(v: Seq<int>, s: int) -> bool {
    forall|i: int| 0 <= i < v.len() ==> fits_i64(v[i] * s)
}

/// Sum of the first `k` elementwise products of `a` and `b`.
pub open spec fn dot_partial(a: Seq<int>, b: Seq<int>, k: int) -> int
    decreases k,
{
    if k <= 0 {
        0
    } else {
        dot_partial(a, b, k - 1) + a[k - 1] * b[k - 1]
    }
}

/// The dot product: the sum of all elementwise products.
pub open spec fn dot_spec(a: Seq<int>, b: Seq<int>) -> int {
    dot_partial(a, b, a.len() as int)
}

/// True iff every running sum of the dot product is storable.
pub open spec fn dot_fits(a: Seq<int>, b: Seq<int>) -> bool {
    forall|k: int| 0 <= k <= a.len() ==> fits_i64(dot_partial(a, b, k))
}

/// The 3-D cross product of `a` and `b` (both of length 3).
pub open spec fn cross_spec(a: Seq<int>, b: Seq<int>) -> Seq<int> {
    seq![
        a[1] * b[2] - a[2] * b[1],
        a[2] * b[0] - a[0] * b[2],
        a[0] * b[1] - a[1] * b[0],
    ]
}

/// True iff each component of the cross product of two 3-D vectors is
/// storable (vacuous for other dimensions, where no product is computed).
pub open spec fn cross_fits(a: Seq<int>, b: Seq<int>) -> bool {
    a.len() == 3 && b.len() == 3 ==> {
        &&& fits_i64(a[1] * b[2] - a[2] * b[1])
        &&& fits_i64(a[2] * b[0] - a[0] * b[2])
        &&& fits_i64(a[0] * b[1] - a[1] * b[0])
    }
}

impl Vector {
    pub fn new(value: Vec<i64>) -> (r: Vector)
        ensures
            r@ == value@.map(|_i: int, x: i64| x as int),
            r@.len() == value@.len(),
    {
        Vector { value }
    }

    /// The vector's dimension.
    pub fn len(&self) -> (r: usize)
        ensures
            r == self@.len(),
    {
        self.value.len()
    }

    /// The component at index `i`.
    pub fn get(&self, i: usize) -> (r: i64)
        requires
            i < self@.len(),
        ensures
            r as int == self@[i as int],
    {
        self.value[i]
    }

    /// Elementwise sum; both operands are left unchanged.
    pub fn add(&self, other: &Vector) -> (r: Vector)
        requires
            self@.len() == other@.len(),
            add_fits(self@, other@),
        ensures
            r@ == add_spec(self@, other@),
    {
        let n = self.value.len();
        let mut out: Vec<i64> = Vec::new();
        let mut k: usize = 0;
        while k < n
            invariant
                n == self.value.len(),
                n == other.value.len(),
                add_fits(self@, other@),
                k <= n,
                out@.len() == k,
                forall|i: int| 0 <= i < k ==> out@[i] as int == self@[i] + other@[i],
            decreases n - k,
        {
            let s: i128 = self.value[k] as i128 + other.value[k] as i128;
            out.push(s as i64);
            k += 1;
        }
        let r = Vector { value: out };
        proof {
            assert(r@ =~= add_spec(self@, other@));
        }
        r
    }

    /// Elementwise difference; both operands are left unchanged.
    pub fn sub(&self, other: &Vector) -> (r: Vector)
        requires
            self@.len() == other@.len(),
            sub_fits(self@, other@),
        ensures
            r@ == sub_spec(self@, other@),
    {
        let n = self.value.len();
        let mut out: Vec<i64> = Vec::new();
        let mut k: usize = 0;
        while k < n
            invariant
                n == self.value.len(),
                n == other.value.len(),
                sub_fits(self@, other@),
                k <= n,
                out@.len() == k,
                forall|i: int| 0 <= i < k ==> out@[i] as int == self@[i] - other@[i],
            decreases n - k,
        {
            let s: i128 = self.value[k] as i128 - other.value[k] as i128;
            out.push(s as i64);
            k += 1;
        }
        let r = Vector { value: out };
        proof {
            assert(r@ =~= sub_spec(self@, other@));
        }
        r
    }

    /// Every component multiplied by the scalar; the operand is unchanged.
    pub fn mul(&self, rhs: &Scalar) -> (r: Vector)
        requires
            scale_fits(self@, rhs@),
        ensures
            r@ == scale_spec(self@, rhs@),
    {
        let n = self.value.len();
        let mut out: Vec<i64> = Vec::new();
        let mut k: usize = 0;
        while k < n
            invariant
                n == self.value.len(),
                scale_fits(self@, rhs@),
                k <= n,
                out@.len() == k,
                forall|i: int| 0 <= i < k ==> out@[i] as int == self@[i] * rhs@,
            decreases n - k,
        {
            proof {
                lemma_i64_mul_fits_i128(self@[k as int], rhs@);
            }
            let s: i128 = self.value[k] as i128 * rhs.value as i128;
            out.push(s as i64);
            k += 1;
        }
        let r = Vector { value: out };
        proof {
            assert(r@ =~= scale_spec(self@, rhs@));
        }
        r
    }
}

/// Magnitude of a vector: `squared_mag` is the dot product with itself, and
/// `mag` is the integer floor of its square root.
pub trait Mag {
    spec fn mag_req(&self) -> bool;

    spec fn sq_mag_val(&self) -> int;

    fn squared_mag(&self) -> (r: i64)
        requires
            self.mag_req(),
        ensures
            r as int == self.sq_mag_val(),
            r >= 0,
    ;

    fn mag(&self) -> (r: i64)
        requires
            self.mag_req(),
        ensures
            0 <= r,
            (r as int) * (r as int) <= self.sq_mag_val(),
            self.sq_mag_val() < (r as int + 1) * (r as int + 1),
    ;
}

/// The dot product of two equal-length vectors.
pub trait Dot {
    spec fn dot_req(&self, other: &Vector) -> bool;

    spec fn dot_val(&self, other: &Vector) -> int;

    fn dot(&self, other: &Vector) -> (r: i64)
        requires
            self.dot_req(other),
        ensures
            r as int == self.dot_val(other),
    ;
}

/// The 3-D cross product. Defined only for vectors of exactly 3 components;
/// on any other dimension there is no result, which is a normal outcome.
pub trait Cross: View<V = Seq<int>> {
    spec fn cross_req(&self, other: &Vector) -> bool;

    fn cross(&self, other: &Vector) -> (r: Option<Vector>)
        requires
            self.cross_req(other),
        ensures
            r is Some <==> (self@.len() == 3 && other@.len() == 3),
            r is Some ==> r->0@ == cross_spec(self@, other@),
    ;
}

impl Dot for Vector {
    open spec fn dot_req(&self, other: &Vector) -> bool {
        &&& self@.len() == other@.len()
        &&& dot_fits(self@, other@)
    }

    open spec fn dot_val(&self, other: &Vector) -> int {
        dot_spec(self@, other@)
    }

    fn dot(&self, other: &Vector) -> (r: i64) {
        let n = self.value.len();
        let mut total: i64 = 0;
        let mut k: usize = 0;
        while k < n
            invariant
                n == self.value.len(),
                n == other.value.len(),
                dot_fits(self@, other@),
                k <= n,
                total as int == dot_partial(self@, other@, k as int),
            decreases n - k,
        {
            proof {
                lemma_i64_mul_fits_i128(self@[k as int], other@[k as int]);
            }
            let p: i128 = self.value[k] as i128 * other.value[k] as i128;
            let s: i128 = total as i128 + p;
            assert(s == dot_partial(self@, other@, k as int + 1));
            total = s as i64;
            k += 1;
        }
        total
    }
}

impl Cross for Vector {
    open spec fn cross_req(&self, other: &Vector) -> bool {
        cross_fits(self@, other@)
    }

    fn cross(&self, other: &Vector) -> (r: Option<Vector>) {
        if self.value.len() != 3 || other.value.len() != 3 {
            return None;
        }
        let a0: i128 = self.value[0] as i128;
        let a1: i128 = self.value[1] as i128;
        let a2: i128 = self.value[2] as i128;
        let b0: i128 = other.value[0] as i128;
        let b1: i128 = other.value[1] as i128;
        let b2: i128 = other.value[2] as i128;

        proof {
            lemma_i64_mul_fits_i128(self@[1], other@[2]);
            lemma_i64_mul_fits_i128(self@[2], other@[1]);
            lemma_i64_mul_fits_i128(self@[2], other@[0]);
            lemma_i64_mul_fits_i128(self@[0], other@[2]);
            lemma_i64_mul_fits_i128(self@[0], other@[1]);
            lemma_i64_mul_fits_i128(self@[1], other@[0]);
        }
        let cross_x: i128 = a1 * b2 - a2 * b1;
        let cross_y: i128 = a2 * b0 - a0 * b2;
        let cross_z: i128 = a0 * b1 - a1 * b0;

        let mut out: Vec<i64> = Vec::new();
        out.push(cross_x as i64);
        out.push(cross_y as i64);
        out.push(cross_z as i64);
        let r = Vector { value: out };
        proof {
            assert(r@ =~= cross_spec(self@, other@));
        }
        Some(r)
    }
}

impl Mag for Vector {
    open spec fn mag_req(&self) -> bool {
        dot_fits(self@, self@)
    }

    open spec fn sq_mag_val(&self) -> int {
        dot_spec(self@, self@)
    }

    fn squared_mag(&self) -> (r: i64) {
        proof {
            lemma_dot_self_nonneg(self@, self@.len() as int);
        }
        self.dot(self)
    }

    fn mag(&self) -> (r: i64) {
        let sq = self.squared_mag();
        let root = isqrt(sq as u64);
        proof {
            assert(root * root <= i64::MAX ==> root <= 3037000499) by (nonlinear_arith);
        }
        root as i64
    }
}

/// The integer floor of the square root of `n`, found by binary search.
pub fn isqrt(n: u64) -> (r: u64)
    requires
        n <= i64::MAX,
    ensures
        r * r <= n,
        n < (r + 1) * (r + 1),
{
    if n == 0 {
        return 0;
    }
    // 3037000500 * 3037000500 exceeds i64::MAX, so it is a strict upper bound.
    let mut lo: u64 = 0;
    let mut hi: u64 = 3037000500;
    assert(hi * hi > i64::MAX) by (nonlinear_arith)
        requires
            hi == 3037000500u64,
    ;
    while lo + 1 < hi
        invariant
            n <= i64::MAX,
            lo < hi <= 3037000500,
            lo * lo <= n,
            n < hi * hi,
        decreases hi - lo,
    {
        let mid: u64 = lo + (hi - lo) / 2;
        assert(mid * mid <= 3037000500 * 3037000500 < u64::MAX) by (nonlinear_arith)
            requires
                mid <= 3037000500,
        ;
        if mid * mid <= n {
            lo = mid;
        } else {
            hi = mid;
        }
    }
    lo
}

/// The dot product of a vector with itself is a sum of squares, so every
/// partial sum is non-negative.
pub proof fn lemma_dot_self_nonneg(a: Seq<int>, k: int)
    ensures
        dot_partial(a, a, k) >= 0,
    decreases k,
{
    if k > 0 {
        lemma_dot_self_nonneg(a, k - 1);
        assert(a[k - 1] * a[k - 1] >= 0) by (nonlinear_arith);
    }
}

proof fn lemma_dot_partial_commutes(a: Seq<int>, b: Seq<int>, k: int)
    ensures
        dot_partial(a, b, k) == dot_partial(b, a, k),
    decreases k,
{
    if k > 0 {
        lemma_dot_partial_commutes(a, b, k - 1);
    }
}

/// The dot product is commutative: for equal-length vectors `a` and `b`,
/// `dot(a, b) == dot(b, a)`.
pub proof fn lemma_dot_commutes(a: Seq<int>, b: Seq<int>)
    requires
        a.len() == b.len(),
    ensures
        dot_spec(a, b) == dot_spec(b, a),
{
    lemma_dot_partial_commutes(a, b, a.len() as int);
}

/// Vector addition is associative: for equal-length vectors `a`, `b` and `c`,
/// `add(add(a, b), c) == add(a, add(b, c))`.
pub proof fn lemma_add_associates(a: Seq<int>, b: Seq<int>, c: Seq<int>)
    requires
        a.len() == b.len(),
        b.len() == c.len(),
    ensures
        add_spec(add_spec(a, b), c) == add_spec(a, add_spec(b, c)),
{
    assert(add_spec(add_spec(a, b), c) =~= add_spec(a, add_spec(b, c)));
}

/// The cross product is anti-commutative: for 3-D vectors `a` and `b`,
/// `cross(a, b) == scale(cross(b, a), -1)`.
pub proof fn lemma_cross_anticommutes(a: Seq<int>, b: Seq<int>)
    requires
        a.len() == 3,
        b.len() == 3,
    ensures
        cross_spec(a, b) == scale_spec(cross_spec(b, a), -1),
{
    assert(cross_spec(a, b) =~= scale_spec(cross_spec(b, a), -1));
}

/// The magnitude contract pins a single value: any two results that satisfy
/// it for the same squared magnitude are equal, so repeated calls on an
/// unchanged vector agree.
pub proof fn lemma_mag_unique(n: int, r1: int, r2: int)
    requires
        0 <= r1,
        0 <= r2,
        r1 * r1 <= n < (r1 + 1) * (r1 + 1),
        r2 * r2 <= n < (r2 + 1) * (r2 + 1),
    ensures
        r1 == r2,
{
    if r1 < r2 {
        assert((r1 + 1) * (r1 + 1) <= r2 * r2) by (nonlinear_arith)
            requires
                0 <= r1 < r2,
        ;
    }
    if r2 < r1 {
        assert((r2 + 1) * (r2 + 1) <= r1 * r1) by (nonlinear_arith)
            requires
                0 <= r2 < r1,
        ;
    }
}

/// The canonical basis vectors for one dimensionality; `w` is present only
/// in the 4-D bundle.
#[derive(Debug)]
pub struct UnitVectors {
    pub x: Vector,
    pub y: Vector,
    pub z: Vector,
    pub w: Option<Vector>,
}

/// The 3-D canonical basis.
pub fn unit_vectors_3d() -> (r: UnitVectors)
    ensures
        r.x@ == seq![1int, 0int, 0int],
        r.y@ == seq![0int, 1int, 0int],
        r.z@ == seq![0int, 0int, 1int],
        r.w is None,
{
    let x = Vector::new(vec![1, 0, 0]);
    let y = Vector::new(vec![0, 1, 0]);
    let z = Vector::new(vec![0, 0, 1]);
    proof {
        assert(x@ =~= seq![1int, 0int, 0int]);
        assert(y@ =~= seq![0int, 1int, 0int]);
        assert(z@ =~= seq![0int, 0int, 1int]);
    }
    UnitVectors { x, y, z, w: None }
}

/// The 4-D canonical basis.
pub fn unit_vectors_4d() -> (r: UnitVectors)
    ensures
        r.x@ == seq![1int, 0int, 0int, 0int],
        r.y@ == seq![0int, 1int, 0int, 0int],
        r.z@ == seq![0int, 0int, 1int, 0int],
        r.w is Some,
        r.w->0@ == seq![0int, 0int, 0int, 1int],
{
    let x = Vector::new(vec![1, 0, 0, 0]);
    let y = Vector::new(vec![0, 1, 0, 0]);
    let z = Vector::new(vec![0, 0, 1, 0]);
    let w = Vector::new(vec![0, 0, 0, 1]);
    proof {
        assert(x@ =~= seq![1int, 0int, 0int, 0int]);
        assert(y@ =~= seq![0int, 1int, 0int, 0int]);
        assert(z@ =~= seq![0int, 0int, 1int, 0int]);
        assert(w@ =~= seq![0int, 0int, 0int, 1int]);
    }
    UnitVectors { x, y, z, w: Some(w) }
}

} // verus!
