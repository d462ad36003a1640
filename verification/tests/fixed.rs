use bezier::fixed::{Fixed, SCALE};

fn fx(v: f64) -> Fixed {
    Fixed { raw: (v * 65536.0).round() as i32 }
}

#[test]
fn one_is_the_scale() {
    assert_eq!(SCALE, 65536);
    assert_eq!(Fixed::one().raw, 65536);
    assert_eq!(Fixed::zero().raw, 0);
}

#[test]
fn from_int_scales_whole_numbers() {
    assert_eq!(Fixed::from_int(0), Fixed::zero());
    assert_eq!(Fixed::from_int(1), Fixed::one());
    assert_eq!(Fixed::from_int(100).raw, 6_553_600);
    assert_eq!(Fixed::from_int(-3).raw, -196_608);
    assert_eq!(Fixed::from_int(32767).raw, 32767 * 65536);
    assert_eq!(Fixed::from_int(-32768).raw, i32::MIN);
}

#[test]
fn from_int_saturates_outside_the_range() {
    assert_eq!(Fixed::from_int(32768).raw, i32::MAX);
    assert_eq!(Fixed::from_int(i32::MAX).raw, i32::MAX);
    assert_eq!(Fixed::from_int(-32769).raw, i32::MIN);
    assert_eq!(Fixed::from_int(i32::MIN).raw, i32::MIN);
}

#[test]
fn sum_and_difference_are_exact_in_range() {
    assert_eq!(fx(1.5) + fx(2.25), fx(3.75));
    assert_eq!(fx(1.5) - fx(2.25), fx(-0.75));
    assert_eq!(Fixed { raw: 7 } + Fixed { raw: -9 }, Fixed { raw: -2 });
    assert_eq!(Fixed::one() - Fixed::zero(), Fixed::one());
    assert_eq!(Fixed::one() - Fixed::one(), Fixed::zero());
}

#[test]
fn sum_and_difference_saturate() {
    let max = Fixed { raw: i32::MAX };
    let min = Fixed { raw: i32::MIN };
    assert_eq!(max + Fixed { raw: 1 }, max);
    assert_eq!(max + max, max);
    assert_eq!(min + Fixed { raw: -1 }, min);
    assert_eq!(min - Fixed { raw: 1 }, min);
    assert_eq!(max - min, max);
    assert_eq!(min - max, min);
    assert_eq!(Fixed::zero() - min, max);
}

#[test]
fn product_of_exact_values() {
    assert_eq!(fx(1.5) * fx(2.0), fx(3.0));
    assert_eq!(fx(0.5) * fx(0.5), fx(0.25));
    assert_eq!(fx(-1.5) * fx(2.0), fx(-3.0));
    assert_eq!(fx(-1.5) * fx(-2.0), fx(3.0));
    assert_eq!(fx(100.0) * fx(0.5), fx(50.0));
}

#[test]
fn product_with_one_and_zero() {
    for raw in [0, 1, -1, 12345, -98765, i32::MAX, i32::MIN] {
        let a = Fixed { raw };
        assert_eq!(a * Fixed::one(), a);
        assert_eq!(Fixed::one() * a, a);
        assert_eq!(a * Fixed::zero(), Fixed::zero());
    }
}

#[test]
fn product_rounds_toward_zero() {
    let half = Fixed { raw: 32768 };
    assert_eq!((Fixed { raw: 3 } * half).raw, 1);
    assert_eq!((Fixed { raw: -3 } * half).raw, -1);
    assert_eq!((Fixed { raw: 1 } * half).raw, 0);
    assert_eq!((Fixed { raw: -1 } * half).raw, 0);
    assert_eq!((Fixed { raw: 1 } * Fixed { raw: 65535 }).raw, 0);
    assert_eq!((Fixed { raw: -1 } * Fixed { raw: 65535 }).raw, 0);
}

#[test]
fn product_saturates() {
    let max = Fixed { raw: i32::MAX };
    let min = Fixed { raw: i32::MIN };
    assert_eq!(Fixed::from_int(200) * Fixed::from_int(200), max);
    assert_eq!(Fixed::from_int(200) * Fixed::from_int(-200), min);
    assert_eq!(min * min, max);
    assert_eq!(min * max, min);
    assert_eq!(Fixed::from_int(181) * Fixed::from_int(181), Fixed::from_int(32761));
}

#[test]
fn scalars_order_by_value() {
    assert!(fx(-1.0) < fx(-0.5));
    assert!(fx(9.9) < fx(10.0));
    assert!(fx(10.1) > fx(10.0));
}
