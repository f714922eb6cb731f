//! A discrete-time rigid-body world: objects with velocity, position, mass
//! and surface coefficients, advanced tick by tick under a global gravity,
//! with narrow-phase collision detection and resolution against planes and
//! spheres.
//!
//! Conventions, chosen once and used throughout:
//! - The world is 3-D; gravity, velocities and positions all have three
//!   components, and the second component (index 1) is "up".
//! - A plane-shaped object is immovable geometry: an infinite horizontal
//!   plane at its position's height. It is not integrated and never has its
//!   velocity changed.
//! - Friction and restitution coefficients are fixed-point thousandths
//!   (`COEFF_SCALE`); a contact combines two objects' coefficients by taking
//!   the smaller one.
//! - A contact adjusts only the detecting object's own velocity: the normal
//!   component is reflected and scaled by the combined restitution when the
//!   object is approaching, and the two tangential components are scaled by
//!   one minus the combined friction. The partner's detector finds the
//!   mirrored contact in the same tick. A contact with a separating normal
//!   velocity, or between coincident objects (a zero-length normal), is a
//!   no-op.
//! - The contact normal between two spheres is approximated by the dominant
//!   axis of the offset between their centers, which keeps the arithmetic
//!   exact.

use vstd::prelude::*;

use crate::math::Vector;
use crate::math::add_spec;
use crate::math::fits_i64;
use crate::math::lemma_i64_mul_fits_i128;
use crate::math::scale_spec;

verus! {

/// Surface coefficients are thousandths: this value stands for 1.0.
pub const COEFF_SCALE: i64 = 1000;

/// The closed set of collidable geometry kinds.
#[derive(Debug, Clone, Copy, PartialEq, Eq, Structural)]
pub enum Shape {
    /// An infinite horizontal plane at the owning object's height.
    Plane,
    /// A sphere of the given radius around the owning object's position.
    Sphere { radius: i64 },
}

/// A detected touch: the index of the partner object in the world's order.
#[derive(Debug, Clone, Copy, PartialEq, Eq, Structural)]
pub struct Contact {
    pub other: usize,
}

/// One simulated rigid body.
#[derive(Debug)]
pub struct PhysicsObject {
    pub position: Vector,
    pub velocity: Vector,
    pub mass: i64,
    pub coefficient_of_friction: i64,
    pub coefficient_of_restitution: i64,
    pub shape: Shape,
}

/// The friction coefficient, in thousandths.
pub open spec fn friction_of(o: PhysicsObject) -> int {
    o.coefficient_of_friction as int
}

/// The restitution coefficient, in thousandths.
pub open spec fn restitution_of(o: PhysicsObject) -> int {
    o.coefficient_of_restitution as int
}

/// A well-formed object: 3-D, positive mass, coefficients within [0, 1],
/// and a non-negative radius if it is a sphere.
pub open spec fn obj_wf(o: PhysicsObject) -> bool {
    &&& o.position@.len() == 3
    &&& o.velocity@.len() == 3
    &&& o.mass > 0
    &&& 0 <= friction_of(o) <= COEFF_SCALE
    &&& 0 <= restitution_of(o) <= COEFF_SCALE
    &&& (o.shape matches Shape::Sphere { radius } ==> radius >= 0)
}

/// Static attributes (everything but position and velocity) agree.
pub open spec fn same_statics(a: PhysicsObject, b: PhysicsObject) -> bool {
    &&& a.mass == b.mass
    &&& friction_of(a) == friction_of(b)
    &&& restitution_of(a) == restitution_of(b)
    &&& a.shape == b.shape
}

/// Two objects hold the same values in every field.
pub open spec fn obj_eq(a: PhysicsObject, b: PhysicsObject) -> bool {
    &&& a.position@ == b.position@
    &&& a.velocity@ == b.velocity@
    &&& same_statics(a, b)
}

impl PhysicsObject {
    /// A rigid body from its parts. Mass must be positive and the
    /// coefficients within [0, `COEFF_SCALE`]: violating that is a
    /// programming error, not a recoverable condition.
    pub fn new(
        position: Vector,
        velocity: Vector,
        mass: i64,
        coefficient_of_friction: i64,
        coefficient_of_restitution: i64,
        shape: Shape,
    ) -> (r: PhysicsObject)
        requires
            position@.len() == 3,
            velocity@.len() == 3,
            mass > 0,
            0 <= coefficient_of_friction <= COEFF_SCALE,
            0 <= coefficient_of_restitution <= COEFF_SCALE,
            shape matches Shape::Sphere { radius } ==> radius >= 0,
        ensures
            r.position@ == position@,
            r.velocity@ == velocity@,
            r.mass == mass,
            friction_of(r) == coefficient_of_friction as int,
            restitution_of(r) == coefficient_of_restitution as int,
            r.shape == shape,
            obj_wf(r),
    {
        PhysicsObject {
            position,
            velocity,
            mass,
            coefficient_of_friction,
            coefficient_of_restitution,
            shape,
        }
    }
}

impl Clone for PhysicsObject {
    fn clone(&self) -> (r: PhysicsObject)
        ensures
            obj_eq(r, *self),
    {
        PhysicsObject {
            position: self.position.clone(),
            velocity: self.velocity.clone(),
            mass: self.mass,
            coefficient_of_friction: self.coefficient_of_friction,
            coefficient_of_restitution: self.coefficient_of_restitution,
            shape: self.shape,
        }
    }
}

impl PartialEq for PhysicsObject {
    fn eq(&self, other: &Self) -> (r: bool) {
        self.position == other.position && self.velocity == other.velocity && self.mass
            == other.mass && self.coefficient_of_friction == other.coefficient_of_friction
            && self.coefficient_of_restitution == other.coefficient_of_restitution && self.shape
            == other.shape
    }
}

impl vstd::std_specs::cmp::PartialEqSpecImpl for PhysicsObject {
    open spec fn obeys_eq_spec() -> bool {
        true
    }

    open spec fn eq_spec(&self, other: &PhysicsObject) -> bool {
        obj_eq(*self, *other)
    }
}

impl Eq for PhysicsObject {}

/// The smaller of two coefficients: the policy for combining two touching
/// objects' friction or restitution.
pub open spec fn combined(c1: int, c2: int) -> int {
    if c1 <= c2 {
        c1
    } else {
        c2
    }
}

/// `|x|`.
pub open spec fn abs_spec(x: int) -> int {
    if x >= 0 {
        x
    } else {
        -x
    }
}

/// The axis (0, 1 or 2) with the largest absolute offset component; the
/// smallest such index on a tie.
pub open spec fn dominant_axis(d0: int, d1: int, d2: int) -> int {
    if abs_spec(d0) >= abs_spec(d1) && abs_spec(d0) >= abs_spec(d2) {
        0
    } else if abs_spec(d1) >= abs_spec(d2) {
        1
    } else {
        2
    }
}

/// A non-negative approach speed scaled by a coefficient in thousandths,
/// rounding toward zero.
pub open spec fn bounce_spec(approach: int, e: int) -> int {
    (approach * e) / (COEFF_SCALE as int)
}

/// A tangential component scaled by one minus the friction coefficient,
/// rounding toward zero.
pub open spec fn damp_spec(v: int, f: int) -> int {
    if v >= 0 {
        (v * (COEFF_SCALE - f)) / (COEFF_SCALE as int)
    } else {
        -(((-v) * (COEFF_SCALE - f)) / (COEFF_SCALE as int))
    }
}

/// The squared distance between two 3-D points.
pub open spec fn sq_dist(p: Seq<int>, q: Seq<int>) -> int {
    (p[0] - q[0]) * (p[0] - q[0]) + (p[1] - q[1]) * (p[1] - q[1]) + (p[2] - q[2]) * (p[2] - q[2])
}

/// True iff two bodies with the given positions and shapes touch. Two
/// planes never touch; a sphere touches a plane when its bottom is at or
/// below the plane's height; two spheres touch when their center distance
/// is at most the sum of their radii.
pub open spec fn contact_pair(p1: Seq<int>, s1: Shape, p2: Seq<int>, s2: Shape) -> bool {
    match s1 {
        Shape::Plane => match s2 {
            Shape::Plane => false,
            Shape::Sphere { radius } => p2[1] - radius <= p1[1],
        },
        Shape::Sphere { radius: r1 } => match s2 {
            Shape::Plane => p1[1] - r1 <= p2[1],
            Shape::Sphere { radius: r2 } => sq_dist(p1, p2) <= (r1 + r2) * (r1 + r2),
        },
    }
}

/// True iff the sphere-against-sphere contact test between these two bodies
/// can be computed in `i64` arithmetic (other pairings need no bound).
pub open spec fn pair_fits(p1: Seq<int>, s1: Shape, p2: Seq<int>, s2: Shape) -> bool {
    match s1 {
        Shape::Plane => true,
        Shape::Sphere { radius: r1 } => match s2 {
            Shape::Plane => true,
            Shape::Sphere { radius: r2 } => fits_i64(sq_dist(p1, p2)) && fits_i64(
                (r1 + r2) * (r1 + r2),
            ),
        },
    }
}

/// The contacts of a body with the given geometry against the first `k`
/// bodies of the listed positions and shapes, in index order.
pub open spec fn contacts_upto(
    p: Seq<int>,
    s: Shape,
    ps: Seq<Seq<int>>,
    ss: Seq<Shape>,
    k: int,
) -> Seq<Contact>
    decreases k,
{
    if k <= 0 {
        Seq::empty()
    } else if contact_pair(p, s, ps[k - 1], ss[k - 1]) {
        contacts_upto(p, s, ps, ss, k - 1).push(Contact { other: (k - 1) as usize })
    } else {
        contacts_upto(p, s, ps, ss, k - 1)
    }
}

/// Every reported contact names a partner below `k`.
pub proof fn lemma_contacts_bounded(p: Seq<int>, s: Shape, ps: Seq<Seq<int>>, ss: Seq<Shape>, k: int)
    requires
        k <= usize::MAX,
    ensures
        forall|t: int|
            0 <= t < contacts_upto(p, s, ps, ss, k).len() ==> 0 <= (
            #[trigger] contacts_upto(p, s, ps, ss, k)[t]).other < k,
    decreases k,
{
    if k > 0 {
        lemma_contacts_bounded(p, s, ps, ss, k - 1);
        let prev = contacts_upto(p, s, ps, ss, k - 1);
        let cur = contacts_upto(p, s, ps, ss, k);
        assert forall|t: int| 0 <= t < cur.len() implies 0 <= (#[trigger] cur[t]).other < k by {
            if contact_pair(p, s, ps[k - 1], ss[k - 1]) {
                assert(cur == prev.push(Contact { other: (k - 1) as usize }));
                if t < prev.len() {
                    assert(cur[t] == prev[t]);
                } else {
                    assert(cur[t] == Contact { other: (k - 1) as usize });
                }
            } else {
                assert(cur == prev);
            }
        }
    }
}

/// One body's new velocity after resolving one contact. Only a sphere is
/// ever adjusted; planes are static. Against a plane the normal is the up
/// axis; against a sphere it is the dominant axis of the center offset. An
/// approaching normal component is reflected and scaled by the combined
/// restitution, the other two components are scaled down by the combined
/// friction; a separating contact or a zero-length offset changes nothing.
pub open spec fn resolve_pair(
    v: Seq<int>,
    me_p: Seq<int>,
    me_s: Shape,
    me_f: int,
    me_e: int,
    ot_p: Seq<int>,
    ot_s: Shape,
    ot_f: int,
    ot_e: int,
) -> Seq<int> {
    let e: int = combined(me_e, ot_e);
    let f: int = combined(me_f, ot_f);
    match me_s {
        Shape::Plane => v,
        Shape::Sphere { .. } => match ot_s {
            Shape::Plane => if v[1] < 0 {
                seq![damp_spec(v[0], f), bounce_spec(-v[1], e), damp_spec(v[2], f)]
            } else {
                v
            },
            Shape::Sphere { .. } => {
                let d0: int = me_p[0] - ot_p[0];
                let d1: int = me_p[1] - ot_p[1];
                let d2: int = me_p[2] - ot_p[2];
                if d0 == 0 && d1 == 0 && d2 == 0 {
                    v
                } else {
                    let a: int = dominant_axis(d0, d1, d2);
                    let da: int = if a == 0 {
                        d0
                    } else if a == 1 {
                        d1
                    } else {
                        d2
                    };
                    let sva: int = if da > 0 {
                        v[a]
                    } else {
                        -v[a]
                    };
                    if sva < 0 {
                        let mag: int = bounce_spec(-sva, e);
                        let na: int = if da > 0 {
                            mag
                        } else {
                            -mag
                        };
                        Seq::new(3, |k: int| if k == a {
                            na
                        } else {
                            damp_spec(v[k], f)
                        })
                    } else {
                        v
                    }
                }
            },
        },
    }
}

/// Every component's negation is storable (no component is the minimum
/// `i64`), so reflections can be computed exactly.
pub open spec fn neg_fits(v: Seq<int>) -> bool {
    forall|k: int| 0 <= k < v.len() ==> fits_i64(-(#[trigger] v[k]))
}

/// Scaling a non-negative value by a coefficient of at most `COEFF_SCALE`
/// thousandths keeps it between zero and the value itself.
pub proof fn lemma_scale_bound(a: int, c: int)
    by (nonlinear_arith)
    requires
        0 <= a,
        0 <= c <= COEFF_SCALE,
    ensures
        0 <= (a * c) / (COEFF_SCALE as int) <= a,
        a * c <= a * (COEFF_SCALE as int),
{
}

/// The smaller of two coefficients.
fn min_i64(a: i64, b: i64) -> (r: i64)
    ensures
        r as int == combined(a as int, b as int),
{
    if a <= b {
        a
    } else {
        b
    }
}

/// `(a * c) / COEFF_SCALE` for a non-negative `a`, exactly.
fn scale_by_coeff(a: i64, c: i64) -> (r: i64)
    requires
        a >= 0,
        0 <= c <= COEFF_SCALE,
    ensures
        r as int == (a as int * c as int) / (COEFF_SCALE as int),
        0 <= r <= a,
{
    proof {
        lemma_scale_bound(a as int, c as int);
    }
    let p: u128 = (a as u128) * (c as u128);
    (p / (COEFF_SCALE as u128)) as i64
}

/// `damp_spec`, executably: scales a tangential component toward zero.
fn damp_exec(v: i64, f: i64) -> (r: i64)
    requires
        0 <= f <= COEFF_SCALE,
        fits_i64(-(v as int)),
    ensures
        r as int == damp_spec(v as int, f as int),
        fits_i64(-(r as int)),
{
    if v >= 0 {
        scale_by_coeff(v, COEFF_SCALE - f)
    } else {
        let m = scale_by_coeff(-v, COEFF_SCALE - f);
        -m
    }
}

/// One body's new velocity after resolving one contact (`resolve_pair`,
/// executably).
fn resolve_pair_exec(
    v: &Vector,
    me_p: &Vector,
    me_s: Shape,
    me_f: i64,
    me_e: i64,
    ot_p: &Vector,
    ot_s: Shape,
    ot_f: i64,
    ot_e: i64,
) -> (r: Vector)
    requires
        v@.len() == 3,
        me_p@.len() == 3,
        ot_p@.len() == 3,
        neg_fits(v@),
        0 <= me_f <= COEFF_SCALE,
        0 <= me_e <= COEFF_SCALE,
        0 <= ot_f <= COEFF_SCALE,
        0 <= ot_e <= COEFF_SCALE,
    ensures
        r@ == resolve_pair(
            v@,
            me_p@,
            me_s,
            me_f as int,
            me_e as int,
            ot_p@,
            ot_s,
            ot_f as int,
            ot_e as int,
        ),
        r@.len() == 3,
        neg_fits(r@),
{
    let e = min_i64(me_e, ot_e);
    let f = min_i64(me_f, ot_f);
    match me_s {
        Shape::Plane => v.clone(),
        Shape::Sphere { .. } => match ot_s {
            Shape::Plane => {
                if v.get(1) < 0 {
                    let c0 = damp_exec(v.get(0), f);
                    let approach = -v.get(1);
                    let c1 = scale_by_coeff(approach, e);
                    let c2 = damp_exec(v.get(2), f);
                    let r = Vector::new(vec![c0, c1, c2]);
                    proof {
                        assert(r@ =~= seq![
                            damp_spec(v@[0], f as int),
                            bounce_spec(-v@[1], e as int),
                            damp_spec(v@[2], f as int),
                        ]);
                        assert forall|k: int| 0 <= k < r@.len() implies fits_i64(
                            -(#[trigger] r@[k]),
                        ) by {
                        }
                    }
                    r
                } else {
                    v.clone()
                }
            },
            Shape::Sphere { .. } => {
                let d0: i128 = me_p.get(0) as i128 - ot_p.get(0) as i128;
                let d1: i128 = me_p.get(1) as i128 - ot_p.get(1) as i128;
                let d2: i128 = me_p.get(2) as i128 - ot_p.get(2) as i128;
                if d0 == 0 && d1 == 0 && d2 == 0 {
                    v.clone()
                } else {
                    let a0: i128 = if d0 >= 0 {
                        d0
                    } else {
                        -d0
                    };
                    let a1: i128 = if d1 >= 0 {
                        d1
                    } else {
                        -d1
                    };
                    let a2: i128 = if d2 >= 0 {
                        d2
                    } else {
                        -d2
                    };
                    let axis: usize = if a0 >= a1 && a0 >= a2 {
                        0
                    } else if a1 >= a2 {
                        1
                    } else {
                        2
                    };
                    assert(axis as int == dominant_axis(d0 as int, d1 as int, d2 as int));
                    let da: i128 = if axis == 0 {
                        d0
                    } else if axis == 1 {
                        d1
                    } else {
                        d2
                    };
                    let va: i64 = v.get(axis);
                    let sva: i64 = if da > 0 {
                        va
                    } else {
                        -va
                    };
                    if sva < 0 {
                        let mag: i64 = scale_by_coeff(-sva, e);
                        let na: i64 = if da > 0 {
                            mag
                        } else {
                            -mag
                        };
                        let c0: i64 = if axis == 0 {
                            na
                        } else {
                            damp_exec(v.get(0), f)
                        };
                        let c1: i64 = if axis == 1 {
                            na
                        } else {
                            damp_exec(v.get(1), f)
                        };
                        let c2: i64 = if axis == 2 {
                            na
                        } else {
                            damp_exec(v.get(2), f)
                        };
                        let r = Vector::new(vec![c0, c1, c2]);
                        proof {
                            let ga: int = axis as int;
                            let spec_r = Seq::new(3, |k: int| if k == ga {
                                na as int
                            } else {
                                damp_spec(v@[k], combined(me_f as int, ot_f as int))
                            });
                            assert(r@ =~= spec_r);
                            assert forall|k: int| 0 <= k < r@.len() implies fits_i64(
                                -(#[trigger] r@[k]),
                            ) by {
                            }
                        }
                        r
                    } else {
                        v.clone()
                    }
                }
            },
        },
    }
}

/// The positions of all listed bodies, in order.
pub open spec fn positions_of(objs: Seq<PhysicsObject>) -> Seq<Seq<int>> {
    objs.map(|_k: int, o: PhysicsObject| o.position@)
}

/// The shapes of all listed bodies, in order.
pub open spec fn shapes_of(objs: Seq<PhysicsObject>) -> Seq<Shape> {
    objs.map(|_k: int, o: PhysicsObject| o.shape)
}

/// Body `i`'s velocity after resolving, in order, the first `k` contacts of
/// `cs`. Coefficients and shapes come from `objs`, positions from `ps`.
pub open spec fn resolve_seq(
    i: int,
    objs: Seq<PhysicsObject>,
    ps: Seq<Seq<int>>,
    v0: Seq<int>,
    cs: Seq<Contact>,
    k: int,
) -> Seq<int>
    decreases k,
{
    if k <= 0 {
        v0
    } else {
        let prev = resolve_seq(i, objs, ps, v0, cs, k - 1);
        let j = cs[k - 1].other as int;
        resolve_pair(
            prev,
            ps[i],
            objs[i].shape,
            friction_of(objs[i]),
            restitution_of(objs[i]),
            ps[j],
            objs[j].shape,
            friction_of(objs[j]),
            restitution_of(objs[j]),
        )
    }
}

/// Resolution reads only static attributes from the body list, so two lists
/// that agree on statics resolve identically.
pub proof fn lemma_resolve_seq_statics(
    i: int,
    objs1: Seq<PhysicsObject>,
    objs2: Seq<PhysicsObject>,
    ps: Seq<Seq<int>>,
    v0: Seq<int>,
    cs: Seq<Contact>,
    k: int,
)
    requires
        objs1.len() == objs2.len(),
        0 <= i < objs1.len(),
        forall|j: int| 0 <= j < objs1.len() ==> same_statics(#[trigger] objs1[j], objs2[j]),
        forall|t: int| 0 <= t < cs.len() ==> (#[trigger] cs[t]).other < objs1.len(),
        k <= cs.len(),
    ensures
        resolve_seq(i, objs1, ps, v0, cs, k) == resolve_seq(i, objs2, ps, v0, cs, k),
    decreases k,
{
    if k > 0 {
        lemma_resolve_seq_statics(i, objs1, objs2, ps, v0, cs, k - 1);
        assert(same_statics(objs1[i], objs2[i]));
        assert(same_statics(objs1[cs[k - 1].other as int], objs2[cs[k - 1].other as int]));
    }
}

/// A detector for an infinite horizontal plane at the given position.
#[derive(Debug)]
pub struct PlaneDetector {
    pub position: Vector,
}

/// A detector for a sphere of the given radius at the given position.
#[derive(Debug)]
pub struct SphereDetector {
    pub position: Vector,
    pub radius: i64,
}

/// The collision detector matching one shape kind.
#[derive(Debug)]
pub enum Detector {
    Plane(PlaneDetector),
    Sphere(SphereDetector),
}

/// True iff two bodies with the given geometry touch (`contact_pair`,
/// executably).
fn contact_test(p: &Vector, s: Shape, q: &Vector, t: Shape) -> (r: bool)
    requires
        p@.len() == 3,
        q@.len() == 3,
        pair_fits(p@, s, q@, t),
        s matches Shape::Sphere { radius } ==> radius >= 0,
        t matches Shape::Sphere { radius } ==> radius >= 0,
    ensures
        r == contact_pair(p@, s, q@, t),
{
    match s {
        Shape::Plane => match t {
            Shape::Plane => false,
            Shape::Sphere { radius } => (q.get(1) as i128) - (radius as i128) <= (p.get(
                1,
            ) as i128),
        },
        Shape::Sphere { radius: r1 } => match t {
            Shape::Plane => (p.get(1) as i128) - (r1 as i128) <= (q.get(1) as i128),
            Shape::Sphere { radius: r2 } => {
                let d0: i128 = p.get(0) as i128 - q.get(0) as i128;
                let d1: i128 = p.get(1) as i128 - q.get(1) as i128;
                let d2: i128 = p.get(2) as i128 - q.get(2) as i128;
                proof {
                    assert((p@[0] - q@[0]) * (p@[0] - q@[0]) >= 0) by (nonlinear_arith);
                    assert((p@[1] - q@[1]) * (p@[1] - q@[1]) >= 0) by (nonlinear_arith);
                    assert((p@[2] - q@[2]) * (p@[2] - q@[2]) >= 0) by (nonlinear_arith);
                }
                let s0: i128 = d0 * d0;
                let s1: i128 = d1 * d1;
                let s2: i128 = d2 * d2;
                let dist2: i128 = s0 + s1 + s2;
                let rs: i128 = r1 as i128 + r2 as i128;
                let rr: i128 = rs * rs;
                dist2 <= rr
            },
        },
    }
}

/// A query for the contacts a given geometry makes with the world's bodies.
pub trait CollisionDetector {
    spec fn check_req(&self, world: &PhysicsWorld) -> bool;

    spec fn check_post(&self, world: &PhysicsWorld, r: Seq<Contact>) -> bool;

    /// The contacts between this detector's geometry and the world's
    /// bodies, in the world's (stable insertion) order.
    fn check(&self, world: &PhysicsWorld) -> (r: Vec<Contact>)
        requires
            self.check_req(world),
        ensures
            self.check_post(world, r@),
    ;
}

impl CollisionDetector for PlaneDetector {
    open spec fn check_req(&self, world: &PhysicsWorld) -> bool {
        &&& world.wf()
        &&& self.position@.len() == 3
    }

    open spec fn check_post(&self, world: &PhysicsWorld, r: Seq<Contact>) -> bool {
        r == contacts_upto(
            self.position@,
            Shape::Plane,
            positions_of(world.objects_view()),
            shapes_of(world.objects_view()),
            world.objects_view().len() as int,
        )
    }

    fn check(&self, world: &PhysicsWorld) -> (r: Vec<Contact>) {
        detector_scan(&self.position, Shape::Plane, world)
    }
}

impl CollisionDetector for SphereDetector {
    open spec fn check_req(&self, world: &PhysicsWorld) -> bool {
        &&& world.wf()
        &&& self.position@.len() == 3
        &&& self.radius >= 0
        &&& forall|j: int|
            0 <= j < world.objects_view().len() ==> pair_fits(
                self.position@,
                Shape::Sphere { radius: self.radius },
                positions_of(world.objects_view())[j],
                #[trigger] shapes_of(world.objects_view())[j],
            )
    }

    open spec fn check_post(&self, world: &PhysicsWorld, r: Seq<Contact>) -> bool {
        r == contacts_upto(
            self.position@,
            Shape::Sphere { radius: self.radius },
            positions_of(world.objects_view()),
            shapes_of(world.objects_view()),
            world.objects_view().len() as int,
        )
    }

    fn check(&self, world: &PhysicsWorld) -> (r: Vec<Contact>) {
        detector_scan(&self.position, Shape::Sphere { radius: self.radius }, world)
    }
}

/// Scans the world in order for contacts with the given geometry.
fn detector_scan(p: &Vector, s: Shape, world: &PhysicsWorld) -> (r: Vec<Contact>)
    requires
        world.wf(),
        p@.len() == 3,
        s matches Shape::Sphere { radius } ==> radius >= 0,
        forall|j: int|
            0 <= j < world.objects_view().len() ==> pair_fits(
                p@,
                s,
                positions_of(world.objects_view())[j],
                #[trigger] shapes_of(world.objects_view())[j],
            ),
    ensures
        r@ == contacts_upto(
            p@,
            s,
            positions_of(world.objects_view()),
            shapes_of(world.objects_view()),
            world.objects_view().len() as int,
        ),
{
    let n = world.objects.len();
    let mut out: Vec<Contact> = Vec::new();
    let mut j: usize = 0;
    while j < n
        invariant
            world.wf(),
            p@.len() == 3,
            s matches Shape::Sphere { radius } ==> radius >= 0,
            forall|t: int|
                0 <= t < world.objects_view().len() ==> pair_fits(
                    p@,
                    s,
                    positions_of(world.objects_view())[t],
                    #[trigger] shapes_of(world.objects_view())[t],
                ),
            n == world.objects_view().len(),
            j <= n,
            out@ == contacts_upto(
                p@,
                s,
                positions_of(world.objects_view()),
                shapes_of(world.objects_view()),
                j as int,
            ),
        decreases n - j,
    {
        let o = &world.objects[j];
        assert(obj_wf(world.objects_view()[j as int]));
        assert(positions_of(world.objects_view())[j as int] == o.position@);
        assert(shapes_of(world.objects_view())[j as int] == o.shape);
        if contact_test(p, s, &o.position, o.shape) {
            out.push(Contact { other: j });
        }
        j += 1;
    }
    out
}

/// The capability set of a collidable body: its shape's detector and its
/// surface coefficients.
pub trait Collides {
    spec fn collider_post(&self, d: Detector) -> bool;

    spec fn friction_val(&self) -> int;

    spec fn restitution_val(&self) -> int;

    fn get_collider(&self) -> (d: Detector)
        ensures
            self.collider_post(d),
    ;

    fn get_coefficient_of_friction(&self) -> (r: i64)
        ensures
            r as int == self.friction_val(),
    ;

    fn get_coefficient_of_restitution(&self) -> (r: i64)
        ensures
            r as int == self.restitution_val(),
    ;
}

impl Collides for PhysicsObject {
    open spec fn collider_post(&self, d: Detector) -> bool {
        match self.shape {
            Shape::Plane => d matches Detector::Plane(pd) && pd.position@ == self.position@,
            Shape::Sphere { radius } => d matches Detector::Sphere(sd) && sd.position@
                == self.position@ && sd.radius == radius,
        }
    }

    open spec fn friction_val(&self) -> int {
        friction_of(*self)
    }

    open spec fn restitution_val(&self) -> int {
        restitution_of(*self)
    }

    fn get_collider(&self) -> (d: Detector) {
        match self.shape {
            Shape::Plane => Detector::Plane(PlaneDetector { position: self.position.clone() }),
            Shape::Sphere { radius } => Detector::Sphere(
                SphereDetector { position: self.position.clone(), radius },
            ),
        }
    }

    fn get_coefficient_of_friction(&self) -> (r: i64) {
        self.coefficient_of_friction
    }

    fn get_coefficient_of_restitution(&self) -> (r: i64) {
        self.coefficient_of_restitution
    }
}

/// Why a world could not be built.
#[derive(Debug, Clone, Copy, PartialEq, Eq, Structural)]
pub enum WorldError {
    /// Gravity or an object's vectors are not 3-D.
    DimensionMismatch,
    /// An object has a non-positive mass, a coefficient outside [0, 1], or a
    /// negative radius.
    InvalidObject,
}

/// True iff gravity and every object's vectors are 3-D.
pub open spec fn dims_ok(g: Seq<int>, objs: Seq<PhysicsObject>) -> bool {
    &&& g.len() == 3
    &&& forall|i: int|
        0 <= i < objs.len() ==> (#[trigger] objs[i]).position@.len() == 3 && objs[i].velocity@.len()
            == 3
}

/// True iff every object's mass, coefficients and radius are valid.
pub open spec fn attrs_ok(objs: Seq<PhysicsObject>) -> bool {
    forall|i: int|
        0 <= i < objs.len() ==> (#[trigger] objs[i]).mass > 0 && 0 <= friction_of(objs[i])
            <= COEFF_SCALE && 0 <= restitution_of(objs[i]) <= COEFF_SCALE && (
        objs[i].shape matches Shape::Sphere { radius } ==> radius >= 0)
}

/// The world: a global gravity and the owned, insertion-ordered bodies.
#[derive(Debug)]
pub struct PhysicsWorld {
    gravity: Vector,
    objects: Vec<PhysicsObject>,
}

impl PhysicsWorld {
    /// The gravity vector's components.
    pub closed spec fn gravity_view(&self) -> Seq<int> {
        self.gravity@
    }

    /// The owned bodies, in insertion order.
    pub closed spec fn objects_view(&self) -> Seq<PhysicsObject> {
        self.objects@
    }

    /// A well-formed world: 3-D gravity and well-formed bodies.
    pub open spec fn wf(&self) -> bool {
        &&& self.gravity_view().len() == 3
        &&& forall|i: int|
            0 <= i < self.objects_view().len() ==> obj_wf(#[trigger] self.objects_view()[i])
    }

    /// A world from a gravity vector and an initial, ordered collection of
    /// bodies. A malformed configuration is surfaced here: wrong
    /// dimensionality first, then invalid object attributes.
    pub fn new(gravity: Vector, objects: Vec<PhysicsObject>) -> (r: Result<
        PhysicsWorld,
        WorldError,
    >)
        ensures
            dims_ok(gravity@, objects@) && attrs_ok(objects@) ==> (r matches Ok(w)
                && w.gravity_view() == gravity@ && w.objects_view() == objects@ && w.wf()),
            !dims_ok(gravity@, objects@) ==> r == Err::<PhysicsWorld, WorldError>(
                WorldError::DimensionMismatch,
            ),
            dims_ok(gravity@, objects@) && !attrs_ok(objects@) ==> r == Err::<
                PhysicsWorld,
                WorldError,
            >(WorldError::InvalidObject),
    {
        if gravity.len() != 3 {
            return Err(WorldError::DimensionMismatch);
        }
        let n = objects.len();
        let mut i: usize = 0;
        while i < n
            invariant
                n == objects@.len(),
                i <= n,
                forall|t: int|
                    0 <= t < i ==> (#[trigger] objects@[t]).position@.len() == 3
                        && objects@[t].velocity@.len() == 3,
            decreases n - i,
        {
            if objects[i].position.len() != 3 || objects[i].velocity.len() != 3 {
                return Err(WorldError::DimensionMismatch);
            }
            i += 1;
        }
        assert(dims_ok(gravity@, objects@));
        let mut i: usize = 0;
        while i < n
            invariant
                dims_ok(gravity@, objects@),
                n == objects@.len(),
                i <= n,
                forall|t: int|
                    0 <= t < i ==> (#[trigger] objects@[t]).mass > 0 && 0 <= friction_of(
                        objects@[t],
                    ) <= COEFF_SCALE && 0 <= restitution_of(objects@[t]) <= COEFF_SCALE && (
                    objects@[t].shape matches Shape::Sphere { radius } ==> radius >= 0),
            decreases n - i,
        {
            let o = &objects[i];
            let radius_ok = match o.shape {
                Shape::Plane => true,
                Shape::Sphere { radius } => radius >= 0,
            };
            if o.mass <= 0 || o.coefficient_of_friction < 0 || o.coefficient_of_friction
                > COEFF_SCALE || o.coefficient_of_restitution < 0 || o.coefficient_of_restitution
                > COEFF_SCALE || !radius_ok {
                return Err(WorldError::InvalidObject);
            }
            i += 1;
        }
        assert(attrs_ok(objects@));
        let w = PhysicsWorld { gravity, objects };
        proof {
            assert forall|i: int| 0 <= i < w.objects_view().len() implies obj_wf(
                #[trigger] w.objects_view()[i],
            ) by {
                assert(w.objects_view()[i].position@.len() == 3);
                assert(w.objects_view()[i].mass > 0);
            }
        }
        Ok(w)
    }

    /// The gravity vector.
    pub fn gravity(&self) -> (r: &Vector)
        ensures
            r@ == self.gravity_view(),
    {
        &self.gravity
    }

    /// How many bodies the world owns.
    pub fn num_objects(&self) -> (r: usize)
        ensures
            r == self.objects_view().len(),
    {
        self.objects.len()
    }

    /// An immutable view of the body at index `i`.
    pub fn get_object(&self, i: usize) -> (r: &PhysicsObject)
        requires
            i < self.objects_view().len(),
        ensures
            *r == self.objects_view()[i as int],
    {
        &self.objects[i]
    }

    /// True iff the world owns a body equal (field by field) to `obj`.
    pub fn contains(&self, obj: &PhysicsObject) -> (r: bool)
        ensures
            r == exists|i: int|
                0 <= i < self.objects_view().len() && obj_eq(
                    #[trigger] self.objects_view()[i],
                    *obj,
                ),
    {
        let n = self.objects.len();
        let mut i: usize = 0;
        while i < n
            invariant
                n == self.objects_view().len(),
                i <= n,
                forall|t: int| 0 <= t < i ==> !obj_eq(#[trigger] self.objects_view()[t], *obj),
            decreases n - i,
        {
            if self.objects[i] == *obj {
                assert(obj_eq(self.objects_view()[i as int], *obj));
                return true;
            }
            i += 1;
        }
        false
    }
}

/// A body's velocity after gravity is applied over one tick: planes are
/// static, every other body gains `gravity * dt`.
pub open spec fn int_vel(o: PhysicsObject, g: Seq<int>, dt: int) -> Seq<int> {
    match o.shape {
        Shape::Plane => o.velocity@,
        Shape::Sphere { .. } => add_spec(o.velocity@, scale_spec(g, dt)),
    }
}

/// A body's position after one tick: planes are static, every other body
/// moves by its post-gravity velocity times `dt`.
pub open spec fn int_pos(o: PhysicsObject, g: Seq<int>, dt: int) -> Seq<int> {
    match o.shape {
        Shape::Plane => o.position@,
        Shape::Sphere { .. } => add_spec(o.position@, scale_spec(int_vel(o, g, dt), dt)),
    }
}

/// All bodies' post-integration positions, in order.
pub open spec fn integrated_positions(objs: Seq<PhysicsObject>, g: Seq<int>, dt: int) -> Seq<
    Seq<int>,
> {
    Seq::new(objs.len(), |k: int| int_pos(objs[k], g, dt))
}

/// True iff every integrated velocity and position component is storable.
pub open spec fn integrate_fits(objs: Seq<PhysicsObject>, g: Seq<int>, dt: int) -> bool {
    forall|i: int, k: int|
        #![trigger objs[i].velocity@[k]]
        0 <= i < objs.len() && 0 <= k < 3 && !(objs[i].shape matches Shape::Plane) ==> fits_i64(
            objs[i].velocity@[k] + g[k] * dt,
        ) && fits_i64(objs[i].position@[k] + (objs[i].velocity@[k] + g[k] * dt) * dt)
}

/// True iff contact tests and velocity reflections over the bodies' current
/// state can be computed exactly.
pub open spec fn resolve_now_fits(objs: Seq<PhysicsObject>) -> bool {
    &&& forall|i: int, j: int|
        #![trigger pair_fits(objs[i].position@, objs[i].shape, objs[j].position@, objs[j].shape)]
        0 <= i < objs.len() && 0 <= j < objs.len() ==> pair_fits(
            objs[i].position@,
            objs[i].shape,
            objs[j].position@,
            objs[j].shape,
        )
    &&& forall|i: int| 0 <= i < objs.len() ==> neg_fits((#[trigger] objs[i]).velocity@)
}

/// True iff a whole tick from this state can be computed exactly: the
/// integration fits, and contact tests and reflections over the integrated
/// state fit.
pub open spec fn step_fits(objs: Seq<PhysicsObject>, g: Seq<int>, dt: int) -> bool {
    &&& integrate_fits(objs, g, dt)
    &&& forall|i: int, j: int|
        #![trigger int_pos(objs[i], g, dt), int_pos(objs[j], g, dt)]
        0 <= i < objs.len() && 0 <= j < objs.len() ==> pair_fits(
            int_pos(objs[i], g, dt),
            objs[i].shape,
            int_pos(objs[j], g, dt),
            objs[j].shape,
        )
    &&& forall|i: int| 0 <= i < objs.len() ==> neg_fits(int_vel(#[trigger] objs[i], g, dt))
}

/// A body's velocity after resolving all its current contacts, read from
/// the bodies' current positions.
pub open spec fn resolved_velocity_now(objs: Seq<PhysicsObject>, i: int) -> Seq<int> {
    if (objs[i].shape matches Shape::Plane) {
        objs[i].velocity@
    } else {
        let ps = positions_of(objs);
        let ss = shapes_of(objs);
        let cs = contacts_upto(ps[i], objs[i].shape, ps, ss, objs.len() as int);
        resolve_seq(i, objs, ps, objs[i].velocity@, cs, cs.len() as int)
    }
}

/// A body's velocity at the end of one whole tick from the given state:
/// integrate first, then resolve the contacts the integrated state shows.
pub open spec fn final_velocity(objs: Seq<PhysicsObject>, g: Seq<int>, dt: int, i: int) -> Seq<
    int,
> {
    if (objs[i].shape matches Shape::Plane) {
        objs[i].velocity@
    } else {
        let ps = integrated_positions(objs, g, dt);
        let ss = shapes_of(objs);
        let cs = contacts_upto(ps[i], objs[i].shape, ps, ss, objs.len() as int);
        resolve_seq(i, objs, ps, int_vel(objs[i], g, dt), cs, cs.len() as int)
    }
}

/// `v + w * dt`, componentwise and exactly.
fn axpy(v: &Vector, w: &Vector, dt: i64) -> (r: Vector)
    requires
        v@.len() == w@.len(),
        forall|k: int| 0 <= k < v@.len() ==> fits_i64(#[trigger] v@[k] + w@[k] * dt),
    ensures
        r@ == add_spec(v@, scale_spec(w@, dt as int)),
{
    let n = v.len();
    let mut out: Vec<i64> = Vec::new();
    let mut k: usize = 0;
    while k < n
        invariant
            n == v@.len(),
            n == w@.len(),
            forall|t: int| 0 <= t < n ==> fits_i64(#[trigger] v@[t] + w@[t] * dt),
            k <= n,
            out@.len() == k,
            forall|t: int| 0 <= t < k ==> out@[t] as int == v@[t] + w@[t] * dt,
        decreases n - k,
    {
        proof {
            crate::math::lemma_vector_components_fit(w);
            lemma_i64_mul_fits_i128(w@[k as int], dt as int);
        }
        let p: i128 = w.get(k) as i128 * dt as i128;
        let sum: i128 = v.get(k) as i128 + p;
        out.push(sum as i64);
        k += 1;
    }
    let r = Vector::new(out);
    proof {
        assert(r@ =~= add_spec(v@, scale_spec(w@, dt as int)));
    }
    r
}

/// One integration pass: gravity into velocities, velocities into
/// positions; planes are left in place.
fn integrate_objects(objs: &Vec<PhysicsObject>, g: &Vector, dt: i64) -> (r: Vec<PhysicsObject>)
    requires
        g@.len() == 3,
        forall|i: int| 0 <= i < objs@.len() ==> obj_wf(#[trigger] objs@[i]),
        integrate_fits(objs@, g@, dt as int),
    ensures
        r@.len() == objs@.len(),
        forall|i: int|
            0 <= i < objs@.len() ==> {
                &&& same_statics(#[trigger] r@[i], objs@[i])
                &&& r@[i].velocity@ == int_vel(objs@[i], g@, dt as int)
                &&& r@[i].position@ == int_pos(objs@[i], g@, dt as int)
                &&& obj_wf(r@[i])
            },
{
    let n = objs.len();
    let mut out: Vec<PhysicsObject> = Vec::new();
    let mut i: usize = 0;
    while i < n
        invariant
            g@.len() == 3,
            forall|t: int| 0 <= t < objs@.len() ==> obj_wf(#[trigger] objs@[t]),
            integrate_fits(objs@, g@, dt as int),
            n == objs@.len(),
            i <= n,
            out@.len() == i,
            forall|t: int|
                0 <= t < i ==> {
                    &&& same_statics(#[trigger] out@[t], objs@[t])
                    &&& out@[t].velocity@ == int_vel(objs@[t], g@, dt as int)
                    &&& out@[t].position@ == int_pos(objs@[t], g@, dt as int)
                    &&& obj_wf(out@[t])
                },
        decreases n - i,
    {
        let o = &objs[i];
        assert(obj_wf(objs@[i as int]));
        match o.shape {
            Shape::Plane => {
                out.push(o.clone());
            },
            Shape::Sphere { .. } => {
                proof {
                    assert forall|k: int| 0 <= k < o.velocity@.len() implies fits_i64(
                        #[trigger] o.velocity@[k] + g@[k] * (dt as int),
                    ) by {
                        assert(fits_i64(
                            objs@[i as int].velocity@[k] + g@[k] * (dt as int),
                        ));
                    }
                }
                let nv = axpy(&o.velocity, g, dt);
                proof {
                    assert(nv@ == int_vel(objs@[i as int], g@, dt as int));
                    assert forall|k: int| 0 <= k < o.position@.len() implies fits_i64(
                        #[trigger] o.position@[k] + nv@[k] * (dt as int),
                    ) by {
                        assert(fits_i64(
                            objs@[i as int].position@[k] + (objs@[i as int].velocity@[k] + g@[k]
                                * (dt as int)) * (dt as int),
                        ));
                        assert(nv@[k] == objs@[i as int].velocity@[k] + g@[k] * (dt as int));
                    }
                }
                let np = axpy(&o.position, &nv, dt);
                out.push(
                    PhysicsObject {
                        position: np,
                        velocity: nv,
                        mass: o.mass,
                        coefficient_of_friction: o.coefficient_of_friction,
                        coefficient_of_restitution: o.coefficient_of_restitution,
                        shape: o.shape,
                    },
                );
            },
        }
        i += 1;
    }
    out
}

impl PhysicsWorld {
    /// One resolution pass over the current state: each body's detector is
    /// asked for its contacts, and each contact adjusts that body's own
    /// velocity in order. Positions are left unchanged.
    fn resolved_objects(&self) -> (r: Vec<PhysicsObject>)
        requires
            self.wf(),
            resolve_now_fits(self.objects_view()),
        ensures
            r@.len() == self.objects_view().len(),
            forall|i: int|
                0 <= i < r@.len() ==> {
                    &&& same_statics(#[trigger] r@[i], self.objects_view()[i])
                    &&& r@[i].position@ == self.objects_view()[i].position@
                    &&& r@[i].velocity@ == resolved_velocity_now(self.objects_view(), i)
                    &&& obj_wf(r@[i])
                },
    {
        let ghost objs = self.objects_view();
        let n = self.objects.len();
        let mut out: Vec<PhysicsObject> = Vec::new();
        let mut i: usize = 0;
        while i < n
            invariant
                self.wf(),
                resolve_now_fits(objs),
                objs == self.objects_view(),
                n == objs.len(),
                i <= n,
                out@.len() == i,
                forall|t: int|
                    0 <= t < i ==> {
                        &&& same_statics(#[trigger] out@[t], objs[t])
                        &&& out@[t].position@ == objs[t].position@
                        &&& out@[t].velocity@ == resolved_velocity_now(objs, t)
                        &&& obj_wf(out@[t])
                    },
            decreases n - i,
        {
            let o = &self.objects[i];
            assert(obj_wf(objs[i as int]));
            match o.shape {
                Shape::Plane => {
                    let c = o.clone();
                    assert(obj_wf(c));
                    out.push(c);
                },
                Shape::Sphere { .. } => {
                    let det = o.get_collider();
                    let cs: Vec<Contact> = match det {
                        Detector::Sphere(sd) => {
                            proof {
                                assert forall|j: int|
                                    0 <= j < self.objects_view().len() implies pair_fits(
                                    sd.position@,
                                    Shape::Sphere { radius: sd.radius },
                                    positions_of(self.objects_view())[j],
                                    #[trigger] shapes_of(self.objects_view())[j],
                                ) by {
                                    assert(pair_fits(
                                        objs[i as int].position@,
                                        objs[i as int].shape,
                                        objs[j].position@,
                                        objs[j].shape,
                                    ));
                                    assert(positions_of(objs)[j] == objs[j].position@);
                                    assert(shapes_of(objs)[j] == objs[j].shape);
                                }
                            }
                            sd.check(self)
                        },
                        Detector::Plane(_) => {
                            proof {
                                assert(false);
                            }
                            Vec::new()
                        },
                    };
                    let ghost ps = positions_of(objs);
                    let ghost ss = shapes_of(objs);
                    proof {
                        assert(ps[i as int] == objs[i as int].position@);
                        assert(cs@ == contacts_upto(ps[i as int], objs[i as int].shape, ps, ss, n as int));
                        lemma_contacts_bounded(ps[i as int], objs[i as int].shape, ps, ss, n as int);
                        assert(neg_fits(objs[i as int].velocity@));
                    }
                    let mut vel = o.velocity.clone();
                    let mut t: usize = 0;
                    while t < cs.len()
                        invariant
                            self.wf(),
                            resolve_now_fits(objs),
                            objs == self.objects_view(),
                            n == objs.len(),
                            i < n,
                            obj_wf(objs[i as int]),
                            objs[i as int].shape matches Shape::Sphere { .. },
                            ps == positions_of(objs),
                            ss == shapes_of(objs),
                            cs@ == contacts_upto(
                                ps[i as int],
                                objs[i as int].shape,
                                ps,
                                ss,
                                n as int,
                            ),
                            forall|u: int|
                                0 <= u < cs@.len() ==> 0 <= (#[trigger] cs@[u]).other < n,
                            t <= cs@.len(),
                            vel@ == resolve_seq(
                                i as int,
                                objs,
                                ps,
                                objs[i as int].velocity@,
                                cs@,
                                t as int,
                            ),
                            vel@.len() == 3,
                            neg_fits(vel@),
                        decreases cs@.len() - t,
                    {
                        let j = cs[t].other;
                        assert(0 <= j < n);
                        let p = &self.objects[j];
                        assert(obj_wf(objs[j as int]));
                        let me = &self.objects[i];
                        let nv = resolve_pair_exec(
                            &vel,
                            &me.position,
                            me.shape,
                            me.coefficient_of_friction,
                            me.coefficient_of_restitution,
                            &p.position,
                            p.shape,
                            p.coefficient_of_friction,
                            p.coefficient_of_restitution,
                        );
                        proof {
                            assert(ps[j as int] == objs[j as int].position@);
                            assert(nv@ == resolve_seq(
                                i as int,
                                objs,
                                ps,
                                objs[i as int].velocity@,
                                cs@,
                                t as int + 1,
                            ));
                        }
                        vel = nv;
                        t += 1;
                    }
                    let done = PhysicsObject {
                        position: o.position.clone(),
                        velocity: vel,
                        mass: o.mass,
                        coefficient_of_friction: o.coefficient_of_friction,
                        coefficient_of_restitution: o.coefficient_of_restitution,
                        shape: o.shape,
                    };
                    assert(done.velocity@ == resolved_velocity_now(objs, i as int));
                    assert(obj_wf(done));
                    out.push(done);
                },
            }
            i += 1;
        }
        out
    }

    /// One discrete simulation step, in a fixed order: gravity into every
    /// velocity, velocities into positions, then each body's detector is
    /// queried against the moved world and every contact found adjusts that
    /// body's velocity under the resolution policy.
    pub fn update(&mut self, dt: i64)
        requires
            old(self).wf(),
            step_fits(old(self).objects_view(), old(self).gravity_view(), dt as int),
        ensures
            final(self).wf(),
            final(self).gravity_view() == old(self).gravity_view(),
            final(self).objects_view().len() == old(self).objects_view().len(),
            forall|i: int|
                0 <= i < old(self).objects_view().len() ==> {
                    &&& same_statics(
                        #[trigger] final(self).objects_view()[i],
                        old(self).objects_view()[i],
                    )
                    &&& final(self).objects_view()[i].position@ == int_pos(
                        old(self).objects_view()[i],
                        old(self).gravity_view(),
                        dt as int,
                    )
                    &&& final(self).objects_view()[i].velocity@ == final_velocity(
                        old(self).objects_view(),
                        old(self).gravity_view(),
                        dt as int,
                        i,
                    )
                },
    {
        let ghost objs0 = self.objects_view();
        let ghost g = self.gravity_view();
        let ghost dti = dt as int;
        let moved = integrate_objects(&self.objects, &self.gravity, dt);
        self.objects = moved;
        let ghost objs1 = self.objects_view();
        proof {
            assert forall|i: int| 0 <= i < objs1.len() implies obj_wf(#[trigger] objs1[i]) by {
                assert(obj_wf(objs0[i]));
            }
            assert(self.wf());
            assert forall|i: int, j: int|
                #![trigger pair_fits(objs1[i].position@, objs1[i].shape, objs1[j].position@, objs1[j].shape)]
                0 <= i < objs1.len() && 0 <= j < objs1.len() implies pair_fits(
                objs1[i].position@,
                objs1[i].shape,
                objs1[j].position@,
                objs1[j].shape,
            ) by {
                assert(pair_fits(int_pos(objs0[i], g, dti), objs0[i].shape, int_pos(objs0[j], g, dti), objs0[j].shape));
            }
            assert forall|i: int| 0 <= i < objs1.len() implies neg_fits(
                (#[trigger] objs1[i]).velocity@,
            ) by {
                assert(neg_fits(int_vel(objs0[i], g, dti)));
            }
            assert(resolve_now_fits(objs1));
        }
        let finals = self.resolved_objects();
        self.objects = finals;
        proof {
            let ps1 = positions_of(objs1);
            let psm = integrated_positions(objs0, g, dti);
            assert forall|j: int| 0 <= j < ps1.len() implies ps1[j] == psm[j] by {
                assert(ps1[j] == objs1[j].position@);
            }
            assert(ps1 =~= psm);
            let ss1 = shapes_of(objs1);
            let ss0 = shapes_of(objs0);
            assert forall|j: int| 0 <= j < ss1.len() implies ss1[j] == ss0[j] by {
                assert(ss1[j] == objs1[j].shape);
                assert(ss0[j] == objs0[j].shape);
            }
            assert(ss1 =~= ss0);
            assert forall|i: int|
                0 <= i < objs0.len() implies #[trigger] resolved_velocity_now(objs1, i)
                == final_velocity(objs0, g, dti, i) by {
                assert(objs1[i].shape == objs0[i].shape);
                if (objs0[i].shape matches Shape::Plane) {
                    assert(resolved_velocity_now(objs1, i) == objs1[i].velocity@);
                    assert(objs1[i].velocity@ == int_vel(objs0[i], g, dti));
                } else {
                    let cs = contacts_upto(psm[i], objs0[i].shape, psm, ss0, objs0.len() as int);
                    assert(ps1[i] == psm[i]);
                    assert(objs1[i].velocity@ == int_vel(objs0[i], g, dti));
                    lemma_contacts_bounded(psm[i], objs0[i].shape, psm, ss0, objs0.len() as int);
                    assert forall|j: int|
                        0 <= j < objs0.len() implies same_statics(#[trigger] objs1[j], objs0[j]) by {
                    }
                    lemma_resolve_seq_statics(
                        i,
                        objs1,
                        objs0,
                        psm,
                        int_vel(objs0[i], g, dti),
                        cs,
                        cs.len() as int,
                    );
                }
            }
        }
    }
}

/// On an approaching contact with a plane, resolution leaves the vertical
/// velocity non-penetrating: at or above zero.
pub proof fn lemma_plane_resolution_non_penetrating(
    v: Seq<int>,
    me_p: Seq<int>,
    r1: i64,
    me_f: int,
    me_e: int,
    ot_p: Seq<int>,
    ot_f: int,
    ot_e: int,
)
    requires
        v.len() == 3,
        0 <= me_e <= COEFF_SCALE,
        0 <= ot_e <= COEFF_SCALE,
        v[1] < 0,
    ensures
        resolve_pair(
            v,
            me_p,
            Shape::Sphere { radius: r1 },
            me_f,
            me_e,
            ot_p,
            Shape::Plane,
            ot_f,
            ot_e,
        )[1] >= 0,
{
    lemma_scale_bound(-v[1], combined(me_e, ot_e));
}

/// On an approaching contact with another sphere, resolution leaves the
/// velocity along the contact normal (the dominant axis of the center
/// offset) non-penetrating: pointing away from the partner or zero.
pub proof fn lemma_sphere_resolution_non_penetrating(
    v: Seq<int>,
    me_p: Seq<int>,
    r1: i64,
    me_f: int,
    me_e: int,
    ot_p: Seq<int>,
    r2: i64,
    ot_f: int,
    ot_e: int,
)
    requires
        v.len() == 3,
        me_p.len() == 3,
        ot_p.len() == 3,
        0 <= me_e <= COEFF_SCALE,
        0 <= ot_e <= COEFF_SCALE,
        !(me_p[0] == ot_p[0] && me_p[1] == ot_p[1] && me_p[2] == ot_p[2]),
    ensures
        ({
            let a = dominant_axis(me_p[0] - ot_p[0], me_p[1] - ot_p[1], me_p[2] - ot_p[2]);
            let da = me_p[a] - ot_p[a];
            let r = resolve_pair(
                v,
                me_p,
                Shape::Sphere { radius: r1 },
                me_f,
                me_e,
                ot_p,
                Shape::Sphere { radius: r2 },
                ot_f,
                ot_e,
            );
            (da > 0 ==> r[a] >= 0) && (da < 0 ==> r[a] <= 0)
        }),
{
    let a = dominant_axis(me_p[0] - ot_p[0], me_p[1] - ot_p[1], me_p[2] - ot_p[2]);
    let da = if a == 0 {
        me_p[0] - ot_p[0]
    } else if a == 1 {
        me_p[1] - ot_p[1]
    } else {
        me_p[2] - ot_p[2]
    };
    let sva = if da > 0 {
        v[a]
    } else {
        -v[a]
    };
    if sva < 0 {
        lemma_scale_bound(-sva, combined(me_e, ot_e));
    }
}

/// A body that touches nothing in a tick ends it in free fall: its velocity
/// is exactly the old velocity advanced by gravity over the time delta.
pub proof fn lemma_tick_free_fall(objs: Seq<PhysicsObject>, g: Seq<int>, dt: int, i: int)
    requires
        0 <= i < objs.len(),
        objs[i].shape matches Shape::Sphere { .. },
        contacts_upto(
            integrated_positions(objs, g, dt)[i],
            objs[i].shape,
            integrated_positions(objs, g, dt),
            shapes_of(objs),
            objs.len() as int,
        ) == Seq::<Contact>::empty(),
    ensures
        final_velocity(objs, g, dt, i) == add_spec(objs[i].velocity@, scale_spec(g, dt)),
{
    let ps = integrated_positions(objs, g, dt);
    let cs = contacts_upto(ps[i], objs[i].shape, ps, shapes_of(objs), objs.len() as int);
    let v0 = int_vel(objs[i], g, dt);
    assert(resolve_seq(i, objs, ps, v0, cs, 0) == v0);
}

/// A body whose one contact after integration is an infinite plane it is
/// falling onto ends the tick bounced: the vertical velocity is reflected
/// and scaled by the combined restitution — non-penetrating, at or above
/// zero — and the tangential components are scaled down by the combined
/// friction.
pub proof fn lemma_tick_plane_bounce(
    objs: Seq<PhysicsObject>,
    g: Seq<int>,
    dt: int,
    i: int,
    j: int,
)
    requires
        objs.len() <= usize::MAX,
        0 <= i < objs.len(),
        0 <= j < objs.len(),
        objs[i].shape matches Shape::Sphere { .. },
        objs[j].shape == Shape::Plane,
        0 <= restitution_of(objs[i]) <= COEFF_SCALE,
        0 <= restitution_of(objs[j]) <= COEFF_SCALE,
        int_vel(objs[i], g, dt)[1] < 0,
        contacts_upto(
            integrated_positions(objs, g, dt)[i],
            objs[i].shape,
            integrated_positions(objs, g, dt),
            shapes_of(objs),
            objs.len() as int,
        ) == seq![Contact { other: j as usize }],
    ensures
        ({
            let v0 = int_vel(objs[i], g, dt);
            let e = combined(restitution_of(objs[i]), restitution_of(objs[j]));
            let f = combined(friction_of(objs[i]), friction_of(objs[j]));
            &&& final_velocity(objs, g, dt, i) == seq![
                damp_spec(v0[0], f),
                bounce_spec(-v0[1], e),
                damp_spec(v0[2], f),
            ]
            &&& final_velocity(objs, g, dt, i)[1] == bounce_spec(-v0[1], e)
            &&& final_velocity(objs, g, dt, i)[1] >= 0
        }),
{
    let ps = integrated_positions(objs, g, dt);
    let cs = contacts_upto(ps[i], objs[i].shape, ps, shapes_of(objs), objs.len() as int);
    let v0 = int_vel(objs[i], g, dt);
    let e = combined(restitution_of(objs[i]), restitution_of(objs[j]));
    let f = combined(friction_of(objs[i]), friction_of(objs[j]));
    assert(cs.len() == 1);
    assert(cs[0].other as int == j);
    assert(resolve_seq(i, objs, ps, v0, cs, 0) == v0);
    assert(resolve_seq(i, objs, ps, v0, cs, 1) == resolve_pair(
        v0,
        ps[i],
        objs[i].shape,
        friction_of(objs[i]),
        restitution_of(objs[i]),
        ps[j],
        objs[j].shape,
        friction_of(objs[j]),
        restitution_of(objs[j]),
    ));
    assert(final_velocity(objs, g, dt, i) == seq![
        damp_spec(v0[0], f),
        bounce_spec(-v0[1], e),
        damp_spec(v0[2], f),
    ]);
    lemma_scale_bound(-v0[1], e);
}

} // verus!
