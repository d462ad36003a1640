use bezier::fixed::Fixed;
use bezier::vec::Vector;

fn fx(v: f64) -> Fixed {
    Fixed { raw: (v * 65536.0).round() as i32 }
}

fn pt(x: f64, y: f64) -> Vector {
    Vector::new_with_data(fx(x), fx(y))
}

#[test]
fn components_are_kept() {
    let v = Vector::new_with_data(Fixed::from_int(3), Fixed::from_int(-4));
    assert_eq!(v.x(), Fixed::from_int(3));
    assert_eq!(v.y(), Fixed::from_int(-4));
    assert_eq!(v, Vector { x: Fixed::from_int(3), y: Fixed::from_int(-4) });
}

#[test]
fn setters_replace_one_component() {
    let mut v = pt(1.0, 2.0);
    v.set_x(fx(7.5));
    assert_eq!(v, pt(7.5, 2.0));
    v.set_y(fx(-0.25));
    assert_eq!(v, pt(7.5, -0.25));
}

#[test]
fn sum_is_componentwise() {
    assert_eq!(pt(1.0, 2.0) + pt(10.5, -20.0), pt(11.5, -18.0));
}

#[test]
fn difference_is_componentwise() {
    assert_eq!(pt(1.0, 2.0) - pt(10.5, -20.0), pt(-9.5, 22.0));
}

#[test]
fn scaling_multiplies_both_components() {
    assert_eq!(pt(100.0, -50.0) * fx(0.5), pt(50.0, -25.0));
    assert_eq!(pt(3.0, 4.0) * fx(-2.0), pt(-6.0, -8.0));
    assert_eq!(pt(3.0, 4.0) * Fixed::one(), pt(3.0, 4.0));
    assert_eq!(pt(3.0, 4.0) * Fixed::zero(), pt(0.0, 0.0));
}

#[test]
fn vector_arithmetic_saturates_each_component() {
    let max = Fixed { raw: i32::MAX };
    let min = Fixed { raw: i32::MIN };
    let v = Vector::new_with_data(max, Fixed::from_int(1));
    assert_eq!(v + v, Vector::new_with_data(max, Fixed::from_int(2)));
    let w = Vector::new_with_data(min, Fixed::from_int(1));
    assert_eq!(w - v, Vector::new_with_data(min, Fixed::zero()));
    assert_eq!(v * Fixed::from_int(3), Vector::new_with_data(max, Fixed::from_int(3)));
}

#[test]
fn distance_of_a_right_triangle() {
    assert_eq!(pt(0.0, 0.0).distance_to(pt(3.0, 4.0)), fx(5.0));
    assert_eq!(pt(10.0, 10.0).distance_to(pt(7.0, 14.0)), fx(5.0));
    assert_eq!(pt(-1.5, 2.0).distance_to(pt(-1.5, -6.25)), fx(8.25));
}

#[test]
fn distance_rounds_down() {
    let origin = pt(0.0, 0.0);
    let unit_diagonal = Vector::new_with_data(Fixed::one(), Fixed::one());
    // sqrt(2) * 65536 = 92681.9...
    assert_eq!(origin.distance_to(unit_diagonal).raw, 92681);
    let tiny = Vector { x: Fixed { raw: 1 }, y: Fixed { raw: 1 } };
    assert_eq!(origin.distance_to(tiny).raw, 1);
}

#[test]
fn distance_is_symmetric() {
    let a = pt(12.25, -7.0);
    let b = pt(-3.5, 99.125);
    assert_eq!(a.distance_to(b), b.distance_to(a));
}

#[test]
fn distance_is_zero_only_between_equal_vectors() {
    let a = pt(12.25, -7.0);
    assert_eq!(a.distance_to(a), Fixed::zero());
    let mut b = a;
    b.set_x(Fixed { raw: a.x().raw + 1 });
    assert_eq!(a.distance_to(b).raw, 1);
    let mut c = a;
    c.set_y(Fixed { raw: a.y().raw - 1 });
    assert_eq!(a.distance_to(c).raw, 1);
}

#[test]
fn distance_saturates() {
    let low = Vector { x: Fixed { raw: i32::MIN }, y: Fixed { raw: i32::MIN } };
    let high = Vector { x: Fixed { raw: i32::MAX }, y: Fixed { raw: i32::MAX } };
    assert_eq!(low.distance_to(high).raw, i32::MAX);
    let left = Vector { x: Fixed { raw: -1_000_000_000 }, y: Fixed::zero() };
    let right = Vector { x: Fixed { raw: 1_000_000_000 }, y: Fixed::zero() };
    assert_eq!(left.distance_to(right).raw, 2_000_000_000);
}
