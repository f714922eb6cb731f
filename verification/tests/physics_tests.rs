use physics_tinkering::math::Vector;
use physics_tinkering::physics_objects::COEFF_SCALE;
use physics_tinkering::physics_objects::Collides;
use physics_tinkering::physics_objects::CollisionDetector;
use physics_tinkering::physics_objects::Detector;
use physics_tinkering::physics_objects::PhysicsObject;
use physics_tinkering::physics_objects::PhysicsWorld;
use physics_tinkering::physics_objects::Shape;
use physics_tinkering::physics_objects::WorldError;

fn resting_sphere(x: i64, y: i64, restitution: i64) -> PhysicsObject {
    PhysicsObject::new(
        Vector::new(vec![x, y, 0]),
        Vector::new(vec![0, 0, 0]),
        1,
        0,
        restitution,
        Shape::Sphere { radius: 10 },
    )
}

fn floor_plane() -> PhysicsObject {
    PhysicsObject::new(
        Vector::new(vec![0, 0, 0]),
        Vector::new(vec![0, 0, 0]),
        1,
        0,
        COEFF_SCALE,
        Shape::Plane,
    )
}

#[test]
fn test_world_membership() {
    let a = resting_sphere(0, 1000, 500);
    let b = resting_sphere(5000, 1000, 500);
    let world = PhysicsWorld::new(
        Vector::new(vec![0, -98, 0]),
        vec![a],
    )
    .unwrap();
    assert!(world.contains(&resting_sphere(0, 1000, 500)));
    assert!(!world.contains(&b));
    assert_eq!(1, world.num_objects());
}

#[test]
fn test_world_rejects_bad_dimensions() {
    // 2-D gravity is a configuration error surfaced at construction
    let r = PhysicsWorld::new(Vector::new(vec![0, -98]), vec![]);
    assert_eq!(WorldError::DimensionMismatch, r.err().unwrap());
    // a 2-D object as well
    let short = PhysicsObject::new(
        Vector::new(vec![0, 0, 0]),
        Vector::new(vec![0, 0, 0]),
        1,
        0,
        0,
        Shape::Plane,
    );
    let mut obj = short;
    obj.velocity = Vector::new(vec![0, 0]);
    let r2 = PhysicsWorld::new(Vector::new(vec![0, -98, 0]), vec![obj]);
    assert_eq!(WorldError::DimensionMismatch, r2.err().unwrap());
}

#[test]
fn test_world_rejects_bad_attributes() {
    let mut obj = floor_plane();
    obj.mass = 0;
    let r = PhysicsWorld::new(Vector::new(vec![0, -98, 0]), vec![obj]);
    assert_eq!(WorldError::InvalidObject, r.err().unwrap());
}

#[test]
fn test_collides_capabilities() {
    let o = resting_sphere(3, 40, 700);
    assert_eq!(0, o.get_coefficient_of_friction());
    assert_eq!(700, o.get_coefficient_of_restitution());
    match o.get_collider() {
        Detector::Sphere(sd) => {
            assert_eq!(10, sd.radius);
            assert_eq!(Vector::new(vec![3, 40, 0]), sd.position);
        }
        Detector::Plane(_) => panic!("a sphere's collider must be a sphere detector"),
    }
}

#[test]
fn test_detector_check_reports_contacts() {
    // a sphere resting on the plane and one far above it
    let low = resting_sphere(0, 5, 500);
    let high = resting_sphere(0, 1000, 500);
    let world = PhysicsWorld::new(
        Vector::new(vec![0, -98, 0]),
        vec![floor_plane(), low, high],
    )
    .unwrap();
    let plane = world.get_object(0);
    let contacts = match plane.get_collider() {
        Detector::Plane(pd) => pd.check(&world),
        Detector::Sphere(_) => panic!("a plane's collider must be a plane detector"),
    };
    // the plane touches itself never, the low sphere (5 - 10 <= 0), not the high one
    assert_eq!(1, contacts.len());
    assert_eq!(1, contacts[0].other);
}

#[test]
fn test_gravity_tick_and_bounce() {
    // gravity -9.8 in tenths, one unit-mass sphere at rest above a plane at
    // height 0, restitution 0.5 in thousandths, dt = 1
    let gravity = Vector::new(vec![0, -98, 0]);
    let ball = resting_sphere(0, 1000, 500);
    let mut world = PhysicsWorld::new(gravity, vec![ball, floor_plane()]).unwrap();

    // after one tick the velocity is exactly gravity * dt
    world.update(1);
    assert_eq!(Vector::new(vec![0, -98, 0]), world.get_object(0).velocity);
    assert_eq!(Vector::new(vec![0, 1000 - 98, 0]), world.get_object(0).position);

    // tick until the ball reaches the plane: the first resolved tick must
    // leave a non-penetrating (upward) vertical velocity, scaled by the
    // combined restitution (the smaller of 0.5 and 1.0)
    let mut bounced = false;
    for _ in 0..100 {
        let before = world.get_object(0).velocity.get(1);
        world.update(1);
        let after = world.get_object(0).velocity.get(1);
        if after >= 0 {
            let falling = before - 98;
            assert!(falling < 0);
            assert_eq!((-falling) * 500 / 1000, after);
            bounced = true;
            break;
        }
    }
    assert!(bounced);
    // the plane itself never moved
    assert_eq!(Vector::new(vec![0, 0, 0]), world.get_object(1).position);
    assert_eq!(Vector::new(vec![0, 0, 0]), world.get_object(1).velocity);
}

#[test]
fn test_coincident_spheres_are_a_noop() {
    // two spheres at the same point: the contact has no usable normal and
    // must not change either velocity
    let a = resting_sphere(0, 50, 500);
    let b = resting_sphere(0, 50, 500);
    let mut world = PhysicsWorld::new(Vector::new(vec![0, 0, 0]), vec![a, b]).unwrap();
    world.update(1);
    assert_eq!(Vector::new(vec![0, 0, 0]), world.get_object(0).velocity);
    assert_eq!(Vector::new(vec![0, 0, 0]), world.get_object(1).velocity);
}

#[test]
fn test_sphere_sphere_bounce() {
    // one sphere moving along x into a stationary one; the offset's dominant
    // axis is x, so the mover's x velocity reflects scaled by restitution
    let mut mover = resting_sphere(0, 50, 500);
    mover.velocity = Vector::new(vec![30, 0, 0]);
    let target = resting_sphere(15, 50, 800);
    let mut world = PhysicsWorld::new(Vector::new(vec![0, 0, 0]), vec![mover, target]).unwrap();
    world.update(0);
    // offset after integration (dt 0 keeps positions): mover is 15 left of
    // the target and approaching, so its velocity reflects: 30 * 0.5 = 15
    assert_eq!(Vector::new(vec![-15, 0, 0]), world.get_object(0).velocity);
    // the target sees the mover leaving (relative to its own zero velocity
    // it is not approaching), so it is unchanged
    assert_eq!(Vector::new(vec![0, 0, 0]), world.get_object(1).velocity);
}

#[test]
fn test_friction_damps_tangential_velocity() {
    // a sphere sliding along x while pressed onto the plane by gravity;
    // friction 0.25 (both surfaces at 250) damps x by a quarter per contact
    let mut slider = PhysicsObject::new(
        Vector::new(vec![0, 10, 0]),
        Vector::new(vec![400, 0, 0]),
        1,
        250,
        0,
        Shape::Sphere { radius: 10 },
    );
    slider.velocity = Vector::new(vec![400, -1, 0]);
    let mut plane = floor_plane();
    plane.coefficient_of_friction = 250;
    let mut world = PhysicsWorld::new(Vector::new(vec![0, 0, 0]), vec![slider, plane]).unwrap();
    world.update(1);
    // falling at -1 onto the plane: bounce of 1 * 0 restitution is 0, and
    // x is scaled by (1000 - 250) / 1000
    assert_eq!(Vector::new(vec![300, 0, 0]), world.get_object(0).velocity);
}
