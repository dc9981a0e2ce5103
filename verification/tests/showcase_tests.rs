use raymarch::fixed::Fixed;
use raymarch::fixed::ONE;
use raymarch::showcase::bounced_from;
use raymarch::showcase::color_at;
use raymarch::showcase::distance_field;
use raymarch::showcase::normal_at;
use raymarch::showcase::realistic_color_at;
use raymarch::showcase::resolve;
use raymarch::showcase::sample;
use raymarch::showcase::shoot_ray;
use raymarch::showcase::sunlight_from;
use raymarch::showcase::tenths;
use raymarch::showcase::Cube;
use raymarch::showcase::Sphere;
use raymarch::showcase::MAX_BOUNCES;
use raymarch::Vec3;
use raymarch::MAX_SDF_DISTANCE;
use raymarch::MIN_SDF_DISTANCE;

fn n(x: i64, y: i64, z: i64) -> Vec3 {
    Vec3::new(Fixed::from_int(x), Fixed::from_int(y), Fixed::from_int(z))
}

fn b(x: i64, y: i64, z: i64) -> Vec3 {
    Vec3::new(Fixed::from_raw(x), Fixed::from_raw(y), Fixed::from_raw(z))
}

fn through(x: i64, y: i64) -> Vec3 {
    let part = |pixel: i64| {
        (Fixed::from_int(pixel) / Fixed::from_int(200) - Fixed::ratio(5, 10))
            * Fixed::from_int(2)
            * Fixed::ratio(3, 10)
    };
    Vec3::new(part(x), part(y), Fixed::one()).normalized()
}

#[test]
fn showcase_sphere_and_cube_distances() {
    let s = Sphere { origin: n(0, 0, 10), radius: Fixed::from_int(2) };
    assert_eq!(s.distance_to(n(0, 0, 0)).raw, 8 * ONE);
    assert_eq!(s.distance_to(n(0, 0, 12)).raw, 0);
    assert_eq!(s.distance_to(n(0, 0, 10)).raw, -2 * ONE);
    let c = Cube { origin: n(0, 1, 10), size: n(5, 1, 5) };
    assert_eq!(c.distance_to(n(0, 1, 10)).raw, -ONE);
    assert_eq!(c.distance_to(n(0, 1, 0)).raw, 5 * ONE);
    assert_eq!(c.distance_to(n(5, 2, 15)).raw, 0);
}

#[test]
fn tenths_are_decimal_fractions() {
    assert_eq!(tenths(10, 9, 7), b(ONE, 3_865_470_566, 3_006_477_107));
    assert_eq!(tenths(0, -5, 100), b(0, -ONE / 2, 10 * ONE));
}

#[test]
fn showcase_distance_field() {
    assert_eq!(distance_field(n(0, 0, 0)).raw, 5 * ONE);
    assert_eq!(distance_field(n(0, 0, 9)).raw, 0);
    assert_eq!(distance_field(n(0, 1, 10)).raw, -429_496_729);
    assert_eq!(distance_field(n(2, 0, 10)).raw, ONE / 2);
    // on the first small sphere of the row
    assert_eq!(distance_field(tenths(-25, 9, 87)).raw, 1);
    assert_eq!(distance_field(tenths(0, 9, 100)).raw, -429_496_730);
}

#[test]
fn showcase_normal() {
    assert_eq!(normal_at(n(0, 0, 9)), b(209_999, 209_999, -4_294_967_285));
    assert_eq!(normal_at(b(0, 3_865_470_318, 21_474_835_136)), n(0, 0, -1));
}

#[test]
fn a_ray_through_the_middle_stops_on_the_big_sphere() {
    let end = shoot_ray(n(0, 0, 0), through(100, 100));
    assert_eq!(end, n(0, 0, 9));
    assert!(distance_field(end).raw <= MIN_SDF_DISTANCE);
}

#[test]
fn a_ray_to_the_top_leaves_the_scene() {
    let end = shoot_ray(n(0, 0, 0), through(100, 10));
    assert_eq!(end, b(0, -198_613_913_108_232, 735_607_086_236_553));
    assert!(distance_field(end).raw >= MAX_SDF_DISTANCE);
}

#[test]
fn a_ray_to_the_bottom_stops_on_the_floor() {
    let end = shoot_ray(n(0, 0, 0), through(100, 160));
    assert_eq!(end, b(0, 3_865_470_318, 21_474_835_136));
    assert_eq!(distance_field(end).raw, 1_344);
}

#[test]
fn a_ray_that_starts_on_a_surface_stays_there() {
    assert_eq!(shoot_ray(n(0, 0, 9), n(0, 0, -1)), n(0, 0, 9));
}

#[test]
fn a_ray_without_direction_stays_where_it_is() {
    assert_eq!(shoot_ray(n(0, 0, 0), n(0, 0, 0)), n(0, 0, 0));
}

#[test]
fn plain_colour_in_the_sun() {
    assert_eq!(color_at(n(0, 0, 9)), b(1_431_375_763, 0, 1_431_375_763));
    assert_eq!(
        color_at(b(0, 3_865_470_318, 21_474_835_136)),
        b(1_431_655_765, 0, 1_431_655_765)
    );
}

#[test]
fn sunlight_on_the_sphere_and_on_the_floor() {
    let normal = b(209_999, 209_999, -4_294_967_296);
    let origin = n(0, 0, 9) + normal * (Fixed::from_raw(MIN_SDF_DISTANCE) * Fixed::from_int(2));
    assert_eq!(sunlight_from(normal, origin), b(1_431_375_767, 1_288_238_190, 1_001_963_036));
    let front = b(0, 3_865_470_318, 21_474_835_136);
    let origin = front + n(0, 0, -1) * (Fixed::from_raw(MIN_SDF_DISTANCE) * Fixed::from_int(2));
    assert_eq!(
        sunlight_from(n(0, 0, -1), origin),
        b(1_431_655_765, 1_288_490_188, 1_002_159_035)
    );
}

#[test]
fn no_sunlight_on_a_surface_that_faces_away() {
    let origin = n(0, 0, 9) + n(0, 0, -1) * Fixed::from_raw(2 * MIN_SDF_DISTANCE);
    assert_eq!(sunlight_from(n(0, 0, 1), origin), n(0, 0, 0));
}

#[test]
fn bounced_light_for_a_given_direction() {
    let normal = n(0, -1, 0);
    let sky = tenths(4, 7, 10);
    assert_eq!(
        bounced_from(normal, n(1, -1, 0).normalized(), sky),
        b(1_214_800_199, 1_913_310_314, 2_125_900_349)
    );
    assert_eq!(bounced_from(normal, n(0, 1, 0), sky), n(0, 0, 0));
    assert_eq!(bounced_from(normal, n(1, 0, 0), sky), n(0, 0, 0));
}

#[test]
fn without_bounces_a_point_has_its_sunlight() {
    assert_eq!(
        realistic_color_at(n(0, 0, 9), 0),
        b(1_431_375_763, 1_288_238_186, 1_001_963_034)
    );
}

#[test]
fn bounces_never_darken_a_point() {
    let direct = b(1_431_375_763, 1_288_238_186, 1_001_963_034);
    let mut brighter = false;
    for _ in 0..40 {
        let c = realistic_color_at(n(0, 0, 9), 3);
        assert!(c.x >= direct.x && c.y >= direct.y && c.z >= direct.z);
        if c != direct {
            brighter = true;
        }
    }
    assert!(brighter);
}

#[test]
fn a_sample_that_misses_is_blue() {
    assert_eq!(sample(100, 10, Fixed::zero(), Fixed::zero()), n(0, 0, 1));
    assert_eq!(sample(0, 0, Fixed::ratio(1, 3), Fixed::ratio(-1, 3)), n(0, 0, 1));
}

#[test]
fn a_sample_that_hits_is_lit() {
    for _ in 0..10 {
        let c = sample(100, 100, Fixed::zero(), Fixed::zero());
        assert!(c.x.raw >= 1_431_375_763);
        assert!(c.y.raw >= 1_288_238_186);
        assert!(c.z.raw >= 1_001_963_034);
    }
    assert_eq!(MAX_BOUNCES, 5);
}

#[test]
fn resolve_scales_by_the_exposure_over_the_sample_count() {
    assert_eq!(resolve(n(128, 64, 32)), (203, 101, 50));
    assert_eq!(resolve(n(160, 80, 0)), (254, 127, 0));
    assert_eq!(resolve(n(1000, -5, 16)), (255, 0, 25));
    assert_eq!((Fixed::ratio(8, 10) / Fixed::from_int(128)).raw, 26_843_545);
}
