use raymarch::fixed::Fixed;
use raymarch::fixed::ONE;
use raymarch::fixed::RAW_MAX;
use raymarch::fixed::RAW_MIN;
use raymarch::vec::Vec3;

fn whole(x: i64, y: i64, z: i64) -> Vec3 {
    Vec3::new(Fixed::from_int(x), Fixed::from_int(y), Fixed::from_int(z))
}

fn raws(x: i64, y: i64, z: i64) -> Vec3 {
    Vec3::new(Fixed::from_raw(x), Fixed::from_raw(y), Fixed::from_raw(z))
}

fn length_squared(v: Vec3) -> f64 {
    let one = ONE as f64;
    let x = v.x.raw as f64 / one;
    let y = v.y.raw as f64 / one;
    let z = v.z.raw as f64 / one;
    x * x + y * y + z * z
}

#[test]
fn new_keeps_the_components() {
    let v = Vec3::new(Fixed::from_raw(1), Fixed::from_raw(2), Fixed::from_raw(3));
    assert_eq!(v.x.raw, 1);
    assert_eq!(v.y.raw, 2);
    assert_eq!(v.z.raw, 3);
}

#[test]
fn dot_product() {
    assert_eq!(whole(1, 2, 3).dot(whole(4, -5, 6)).raw, 12 * ONE);
    assert_eq!(whole(1, 0, 0).dot(whole(0, 1, 0)).raw, 0);
}

#[test]
fn cross_product() {
    assert_eq!(whole(1, 0, 0).cross(whole(0, 1, 0)), whole(0, 0, 1));
    assert_eq!(whole(0, 1, 0).cross(whole(1, 0, 0)), whole(0, 0, -1));
    assert_eq!(whole(1, 2, 3).cross(whole(4, 5, 6)), whole(-3, 6, -3));
    assert_eq!(whole(1, 2, 3).cross(whole(1, 2, 3)), whole(0, 0, 0));
}

#[test]
fn magnitude_is_the_rounded_down_root() {
    assert_eq!(whole(3, 4, 0).magnitude().raw, 5 * ONE);
    assert_eq!(whole(0, 0, 0).magnitude().raw, 0);
    assert_eq!(whole(1, 0, 0).magnitude().raw, ONE);
    assert_eq!(whole(0, 0, -1).magnitude().raw, ONE);
    assert_eq!(whole(1, 2, 3).magnitude().raw, 16_070_296_109);
    assert_eq!(raws(ONE / 2, ONE / 2, ONE / 2).magnitude().raw, 3_719_550_786);
}

#[test]
fn magnitude_saturates() {
    assert_eq!(raws(RAW_MIN, RAW_MIN, RAW_MIN).magnitude().raw, RAW_MAX);
    assert_eq!(raws(RAW_MAX, 0, 0).magnitude().raw, RAW_MAX);
    assert_eq!(raws(RAW_MIN, 0, 0).magnitude().raw, RAW_MAX);
}

#[test]
fn distance_between_points() {
    assert_eq!(whole(1, 1, 1).distance(whole(4, 5, 1)).raw, 5 * ONE);
    assert_eq!(whole(1, 1, 1).distance(whole(1, 1, 1)).raw, 0);
}

#[test]
fn normalized_divides_by_the_length() {
    assert_eq!(whole(0, 0, 7).normalized(), whole(0, 0, 1));
    assert_eq!(whole(-2, 0, 0).normalized(), whole(-1, 0, 0));
    assert_eq!(
        whole(1, 2, 3).normalized(),
        raws(1_147_878_293, 2_295_756_587, 3_443_634_880)
    );
    assert_eq!(whole(3, 4, 0).normalized(), Vec3::new(
        Fixed::ratio(3, 5),
        Fixed::ratio(4, 5),
        Fixed::zero(),
    ));
}

#[test]
fn short_vectors_are_normalized_without_loss() {
    for v in [raws(1, 1, 1), raws(3, 4, 5), raws(1, 1, 0), raws(-7, 0, 0), raws(0, 100_000, -3)] {
        let length = v.normalized().magnitude().raw;
        assert!((length - ONE).abs() <= 4);
    }
    assert_eq!(raws(3, 4, 0).normalized(), Vec3::new(
        Fixed::ratio(3, 5),
        Fixed::ratio(4, 5),
        Fixed::zero(),
    ));
    assert_eq!(raws(0, 0, -1).normalized(), whole(0, 0, -1));
    assert_eq!(raws(5, 0, 0).stretched(), raws(5 * 1_073_741_824, 0, 0));
    assert_eq!(whole(1, 0, 0).stretched(), whole(1, 0, 0));
}

#[test]
fn normalizing_the_zero_vector_gives_the_zero_vector() {
    assert_eq!(whole(0, 0, 0).normalized(), whole(0, 0, 0));
}

#[test]
fn absolute_value_by_component() {
    assert_eq!(whole(-1, 2, -3).abs(), whole(1, 2, 3));
    assert_eq!(raws(RAW_MIN, 0, 1).abs(), raws(RAW_MAX, 0, 1));
}

#[test]
fn sum_of_components() {
    assert_eq!(whole(1, 2, 3).sum().raw, 6 * ONE);
    assert_eq!(raws(RAW_MAX, RAW_MAX, RAW_MIN).sum().raw, -1);
}

#[test]
fn saturated_clamps_each_component() {
    assert_eq!(
        raws(-5, ONE / 2, 3 * ONE).saturated(),
        raws(0, ONE / 2, ONE)
    );
}

#[test]
fn two_perpendicular_vectors() {
    let v = Vec3::new(Fixed::ratio(1, 2), Fixed::ratio(1, 3), Fixed::ratio(-1, 7));
    let (a, b) = v.make_two_perpendicular();
    assert_eq!(a, raws(-2_382_419_201, 3_573_628_803, 0));
    assert_eq!(b, raws(510_518_399, 340_345_599, 2_580_954_134));
    assert_eq!(b, v.cross(a));
    assert_eq!(v.dot(a).raw, 0);
    assert_eq!(v.dot(b).raw, -2);
    assert_eq!(a.dot(b).raw, 0);
    assert!((a.magnitude().raw - ONE).abs() <= 4);
}

#[test]
fn two_perpendicular_vectors_of_a_unit_vector_form_an_orthonormal_basis() {
    let v = Vec3::new(Fixed::ratio(6, 10), Fixed::zero(), Fixed::ratio(8, 10));
    let (a, b) = v.make_two_perpendicular();
    assert_eq!(a, whole(0, 1, 0));
    assert_eq!(b, raws(-3_435_973_836, 0, 2_576_980_377));
    assert!((a.magnitude().raw - ONE).abs() <= 4);
    assert!((b.magnitude().raw - ONE).abs() <= 16);
    assert!(v.dot(a).raw.abs() <= 8);
    assert!(v.dot(b).raw.abs() <= 8);
    assert!(a.dot(b).raw.abs() <= 8);
    let units = [
        whole(0, 0, 1),
        whole(0, 1, 0),
        whole(-1, 0, 0),
        whole(1, 2, 3).normalized(),
        raws(3, -4, 5).normalized(),
        raws(1, 1, ONE).normalized(),
    ];
    for u in units {
        let (a, b) = u.make_two_perpendicular();
        assert!((a.magnitude().raw - ONE).abs() <= 4);
        assert!((b.magnitude().raw - ONE).abs() <= 16);
        assert!(u.dot(a).raw.abs() <= 8);
        assert!(u.dot(b).raw.abs() <= 8);
        assert!(a.dot(b).raw.abs() <= 8);
    }
}

#[test]
fn two_perpendicular_vectors_of_the_z_axis() {
    let (a, b) = whole(0, 0, 1).make_two_perpendicular();
    assert_eq!(a, whole(0, 1, 0));
    assert_eq!(b, whole(-1, 0, 0));
    let (c, d) = whole(0, 0, 0).make_two_perpendicular();
    assert_eq!(c, whole(0, 1, 0));
    assert_eq!(d, whole(0, 0, 0));
}

#[test]
fn operators_work_by_component() {
    let a = whole(6, 8, -10);
    let b = whole(2, 4, 5);
    assert_eq!(a + b, whole(8, 12, -5));
    assert_eq!(a - b, whole(4, 4, -15));
    assert_eq!(a * b, whole(12, 32, -50));
    assert_eq!(a / b, whole(3, 2, -2));
    assert_eq!(whole(7, -7, 5) % whole(3, 3, 5), whole(1, -1, 0));
}

#[test]
fn operators_apply_a_scalar_to_every_component() {
    let a = whole(6, 8, -10);
    let two = Fixed::from_int(2);
    assert_eq!(a + two, whole(8, 10, -8));
    assert_eq!(a - two, whole(4, 6, -12));
    assert_eq!(a * two, whole(12, 16, -20));
    assert_eq!(a / two, whole(3, 4, -5));
    assert_eq!(whole(7, -7, 4) % two, whole(1, -1, 0));
}

#[test]
fn assigning_operators_change_the_left_side() {
    let mut a = whole(6, 8, -10);
    a += whole(1, 1, 1);
    assert_eq!(a, whole(7, 9, -9));
    a -= whole(1, 2, 3);
    assert_eq!(a, whole(6, 7, -12));
    a *= whole(2, 2, 2);
    assert_eq!(a, whole(12, 14, -24));
    a /= whole(2, 7, 4);
    assert_eq!(a, whole(6, 2, -6));
    a %= whole(4, 2, 4);
    assert_eq!(a, whole(2, 0, -2));
}

#[test]
fn assigning_operators_take_a_scalar() {
    let mut a = whole(6, 8, -10);
    a += Fixed::from_int(1);
    assert_eq!(a, whole(7, 9, -9));
    a -= Fixed::from_int(2);
    assert_eq!(a, whole(5, 7, -11));
    a *= Fixed::from_int(2);
    assert_eq!(a, whole(10, 14, -22));
    a /= Fixed::from_int(2);
    assert_eq!(a, whole(5, 7, -11));
    a %= Fixed::from_int(3);
    assert_eq!(a, whole(2, 1, -2));
}

#[test]
fn operators_saturate() {
    let big = raws(RAW_MAX, RAW_MIN, 0);
    assert_eq!(big + big, raws(RAW_MAX, RAW_MIN, 0));
    assert_eq!(big / Fixed::zero(), raws(RAW_MAX, RAW_MIN, 0));
}

#[test]
fn conversions_into_a_vector() {
    assert_eq!(Vec3::from(2i32), whole(2, 2, 2));
    assert_eq!(Vec3::from(2u32), whole(2, 2, 2));
    assert_eq!(Vec3::from(-2i64), whole(-2, -2, -2));
    assert_eq!(Vec3::from(2u64), whole(2, 2, 2));
    assert_eq!(Vec3::from(2isize), whole(2, 2, 2));
    assert_eq!(Vec3::from(2usize), whole(2, 2, 2));
    assert_eq!(Vec3::from((1, 2, 3)), whole(1, 2, 3));
    assert_eq!(Vec3::from((1, 2)), whole(1, 2, 0));
    let h = Fixed::ratio(1, 2);
    assert_eq!(Vec3::from(h), Vec3::new(h, h, h));
    assert_eq!(Vec3::from((h, Fixed::one(), Fixed::zero())), raws(ONE / 2, ONE, 0));
    assert_eq!(Vec3::from((h, Fixed::one())), raws(ONE / 2, ONE, 0));
    assert_eq!(Vec3::from([h, h, Fixed::one()]), raws(ONE / 2, ONE / 2, ONE));
    assert_eq!(Vec3::from([h, Fixed::one()]), raws(ONE / 2, ONE, 0));
}

#[test]
fn a_draw_inside_the_ball_is_kept_and_normalized() {
    let draw = raws(ONE / 2, 0, 0);
    assert_eq!(Vec3::direction_from_draw(draw), Some(whole(1, 0, 0)));
    let on_the_ball = whole(0, -1, 0);
    assert_eq!(Vec3::direction_from_draw(on_the_ball), Some(whole(0, -1, 0)));
}

#[test]
fn a_draw_outside_the_ball_or_at_its_centre_is_thrown_away() {
    assert_eq!(Vec3::direction_from_draw(whole(0, 0, 0)), None);
    assert_eq!(Vec3::direction_from_draw(whole(-1, -1, -1)), None);
    // just outside: the length rounds down to one raw step above one
    assert_eq!(Vec3::direction_from_draw(raws(ONE, 100_000, 0)), None);
    // the length of this one rounds down to one, so it is kept
    assert_eq!(
        Vec3::direction_from_draw(raws(ONE, 1, 0)),
        Some(raws(ONE, 1, 0))
    );
}

#[test]
fn random_unit_vectors_have_length_one() {
    for _ in 0..200 {
        let v = Vec3::random_unit_vec();
        let l = length_squared(v);
        assert!((l - 1.0).abs() < 1e-6);
        assert!((v.magnitude().raw - ONE).abs() <= 4);
    }
}

#[test]
fn random_unit_vectors_differ_and_cover_both_sides() {
    let mut seen_not_fallback = false;
    let mut positive = [false; 3];
    let mut negative = [false; 3];
    for _ in 0..500 {
        let v = Vec3::random_unit_vec();
        if v != whole(0, 0, 1) {
            seen_not_fallback = true;
        }
        let c = [v.x.raw, v.y.raw, v.z.raw];
        for i in 0..3 {
            if c[i] > 0 {
                positive[i] = true;
            }
            if c[i] < 0 {
                negative[i] = true;
            }
        }
    }
    assert!(seen_not_fallback);
    assert_eq!(positive, [true; 3]);
    assert_eq!(negative, [true; 3]);
}
