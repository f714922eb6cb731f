use physics_tinkering::math::Cross;
use physics_tinkering::math::Dot;
use physics_tinkering::math::Mag;
use physics_tinkering::math::Scalar;
use physics_tinkering::math::Vector;
use physics_tinkering::math::unit_vectors_3d;
use physics_tinkering::math::unit_vectors_4d;

#[test]
fn test_vectors() {
    test_dot_product();
    test_vector_add();
    test_vector_scalar();
    test_vector_subtraction();
}

#[test]
fn test_dot_product() {
    println!("Testing vector dot product");
    let v1: Vector = Vector::new(vec![0, 1, 0]);
    let v2: Vector = Vector::new(vec![1, 0, 0]);

    assert_eq!(0, v1.dot(&v2));
    println!("Success!")
}

#[test]
fn test_vector_add() {
    println!("Testing vector adding");
    let v1: Vector = Vector::new(vec![123, 123, 0]);
    let v2: Vector = Vector::new(vec![0, 123, 123]);

    assert_eq!(Vector::new(vec![123, 246, 123]), v1.add(&v2));
    println!("Success!")
}

#[test]
fn test_vector_scalar() {
    println!("Testing vector scaling");
    let v1 = Vector::new(vec![1, 1, 1]);
    let scalar = Scalar::new(3);

    assert_eq!(Vector::new(vec![3, 3, 3]), v1.mul(&scalar));
    println!("Success!")
}

#[test]
fn test_vector_subtraction() {
    println!("Testing vector subtraction!");
    let v1 = Vector::new(vec![10, 10, 10]);
    let v2 = Vector::new(vec![5, 5, 5]);

    assert_eq!(Vector::new(vec![5, 5, 5]), v1.sub(&v2));
    println!("Success!")
}

#[test]
fn test_dot_commutes_on_values() {
    let a = Vector::new(vec![3, -4, 7]);
    let b = Vector::new(vec![-2, 9, 5]);
    assert_eq!(a.dot(&b), b.dot(&a));
    assert_eq!(a.dot(&b), 3 * -2 + -4 * 9 + 7 * 5);
}

#[test]
fn test_add_associates_on_values() {
    let a = Vector::new(vec![1, 2, 3]);
    let b = Vector::new(vec![40, 50, 60]);
    let c = Vector::new(vec![-7, -8, -9]);
    assert_eq!(a.add(&b).add(&c), a.add(&b.add(&c)));
}

#[test]
fn test_cross_basis() {
    let x = Vector::new(vec![1, 0, 0]);
    let y = Vector::new(vec![0, 1, 0]);
    let z = x.cross(&y).unwrap();
    assert_eq!(Vector::new(vec![0, 0, 1]), z);
}

#[test]
fn test_cross_anticommutes_on_values() {
    let a = Vector::new(vec![2, -3, 5]);
    let b = Vector::new(vec![7, 11, -13]);
    let ab = a.cross(&b).unwrap();
    let ba = b.cross(&a).unwrap();
    let flipped = ba.mul(&Scalar::new(-1));
    assert_eq!(ab, flipped);
}

#[test]
fn test_cross_rejects_other_dimensions() {
    let three = Vector::new(vec![1, 2, 3]);
    for dim in [0usize, 1, 2, 4, 5] {
        let other = Vector::new(vec![1; dim]);
        assert!(other.cross(&three).is_none());
        assert!(three.cross(&other).is_none());
        let same = Vector::new(vec![2; dim]);
        assert!(other.cross(&same).is_none());
    }
}

#[test]
fn test_magnitude() {
    let v = Vector::new(vec![3, 4, 0]);
    assert_eq!(25, v.squared_mag());
    assert_eq!(5, v.mag());
    // not a perfect square: the magnitude is the floor of the root
    let w = Vector::new(vec![1, 1, 1]);
    assert_eq!(3, w.squared_mag());
    assert_eq!(1, w.mag());
}

#[test]
fn test_magnitude_idempotent() {
    let v = Vector::new(vec![12, -35, 0]);
    let first = v.mag();
    let second = v.mag();
    assert_eq!(first, second);
    assert_eq!(37, first);
}

#[test]
fn test_unit_vectors() {
    let u3 = unit_vectors_3d();
    assert_eq!(Vector::new(vec![1, 0, 0]), u3.x);
    assert_eq!(Vector::new(vec![0, 1, 0]), u3.y);
    assert_eq!(Vector::new(vec![0, 0, 1]), u3.z);
    assert!(u3.w.is_none());

    let u4 = unit_vectors_4d();
    assert_eq!(Vector::new(vec![1, 0, 0, 0]), u4.x);
    assert_eq!(Vector::new(vec![0, 0, 0, 1]), u4.w.unwrap());
}

#[test]
fn test_vector_accessors() {
    let v = Vector::new(vec![9, -2]);
    assert_eq!(2, v.len());
    assert_eq!(9, v.get(0));
    assert_eq!(-2, v.get(1));
    assert_eq!(7, Scalar::new(7).value());
}
