use raymarch::fixed::Fixed;
use raymarch::fixed::ONE;
use raymarch::DirectionalLight;
use raymarch::ImmediateLight;
use raymarch::Light;
use raymarch::PointLight;
use raymarch::Vec3;
use raymarch::MAX_SDF_DISTANCE;

fn at(x: i64, y: i64, z: i64) -> Vec3 {
    Vec3::new(Fixed::from_int(x), Fixed::from_int(y), Fixed::from_int(z))
}

fn in_raw(x: i64, y: i64, z: i64) -> Vec3 {
    Vec3::new(Fixed::from_raw(x), Fixed::from_raw(y), Fixed::from_raw(z))
}

fn sun(size: Fixed) -> DirectionalLight {
    DirectionalLight { direction: at(0, -1, 0), percent_size: size, color: at(1, 2, 3) }
}

#[test]
fn directional_sample_without_offset_lies_against_the_direction() {
    let s = sun(Fixed::ratio(1, 10)).sample_with(at(1, 2, 3), at(1, 0, 0), Fixed::zero());
    assert_eq!(s.shadow_ray_target, in_raw(ONE, 2 * ONE + MAX_SDF_DISTANCE, 3 * ONE));
    assert_eq!(s.shadow_ray_target, in_raw(4_294_967_296, 429_505_319_534_592, 12_884_901_888));
    assert_eq!(s.color, at(1, 2, 3));
}

#[test]
fn directional_sample_is_pushed_along_the_first_perpendicular() {
    let s = sun(Fixed::ratio(1, 10)).sample_with(at(1, 2, 3), at(1, 0, 0), Fixed::ratio(1, 10));
    assert_eq!(
        s.shadow_ray_target,
        in_raw(-42_945_377_932_704, 429_505_319_534_592, 12_884_901_888)
    );
}

#[test]
fn directional_sample_is_pushed_along_the_second_perpendicular() {
    let s = sun(Fixed::ratio(1, 10)).sample_with(at(1, 2, 3), at(0, 1, 0), Fixed::ratio(1, 10));
    assert_eq!(
        s.shadow_ray_target,
        in_raw(4_294_967_296, 429_505_319_534_592, -42_936_787_998_112)
    );
}

#[test]
fn directional_sample_of_a_slanted_light_is_pushed_by_the_offset() {
    let light = DirectionalLight {
        direction: Vec3::new(Fixed::ratio(6, 10), Fixed::zero(), Fixed::ratio(8, 10)),
        percent_size: Fixed::ratio(1, 10),
        color: at(1, 1, 1),
    };
    let centre = light.sample_with(at(0, 0, 0), at(1, 0, 0), Fixed::zero());
    let pushed = light.sample_with(at(0, 0, 0), at(1, 0, 0), Fixed::ratio(1, 10));
    assert_eq!(
        centre.shadow_ray_target,
        in_raw(-257_698_037_700_000, 0, -343_597_383_600_000)
    );
    assert_eq!(
        pushed.shadow_ray_target,
        in_raw(-257_698_037_700_000, -42_949_672_900_000, -343_597_383_600_000)
    );
    // the push is a tenth long, carried to the far distance
    let push = (pushed.shadow_ray_target - centre.shadow_ray_target).magnitude();
    assert_eq!(push.raw, 42_949_672_900_000);
    assert_eq!(push, Fixed::ratio(1, 10) * Fixed::from_raw(MAX_SDF_DISTANCE));
}

#[test]
fn the_push_is_as_long_as_the_offset_and_perpendicular_to_the_direction() {
    let directions = [
        Vec3::new(Fixed::ratio(6, 10), Fixed::zero(), Fixed::ratio(8, 10)),
        at(0, -1, 0),
        at(0, 0, 1),
        at(1, 2, 3).normalized(),
        at(-3, 1, -2).normalized(),
    ];
    let turns = [at(1, 0, 0), at(0, 1, 0), at(-3, 4, 0).normalized(), at(1, -1, 0).normalized()];
    let offsets = [Fixed::zero(), Fixed::ratio(1, 100), Fixed::ratio(1, 10), Fixed::one()];
    for direction in directions {
        let light = DirectionalLight { direction, percent_size: Fixed::one(), color: at(1, 1, 1) };
        for turn in turns {
            for offset in offsets {
                let push = light.push(turn, offset);
                assert!(push.magnitude().raw <= offset.raw + 8);
                assert!(push.magnitude().raw >= offset.raw - 8);
                assert!(push.dot(direction).raw.abs() <= 40);
            }
        }
    }
}

#[test]
fn directional_light_without_size_always_gives_the_same_sample() {
    let light = sun(Fixed::zero());
    let expected = light.sample_with(at(1, 2, 3), at(1, 0, 0), Fixed::zero());
    for _ in 0..50 {
        assert_eq!(light.sample(at(1, 2, 3)), expected);
    }
    let negative = sun(Fixed::from_int(-1));
    for _ in 0..50 {
        assert_eq!(negative.sample(at(1, 2, 3)), expected);
    }
}

#[test]
fn directional_samples_stay_within_the_size_of_the_light() {
    let light = sun(Fixed::ratio(1, 10));
    let centre = light.sample_with(at(0, 0, 0), at(1, 0, 0), Fixed::zero()).shadow_ray_target;
    let limit = (MAX_SDF_DISTANCE as f64) * 0.1001;
    let mut moved = false;
    for _ in 0..200 {
        let s = light.sample(at(0, 0, 0));
        assert_eq!(s.color, at(1, 2, 3));
        assert_eq!(s.shadow_ray_target.y, centre.y);
        let dx = (s.shadow_ray_target.x.raw - centre.x.raw) as f64;
        let dz = (s.shadow_ray_target.z.raw - centre.z.raw) as f64;
        assert!((dx * dx + dz * dz).sqrt() <= limit);
        if s.shadow_ray_target != centre {
            moved = true;
        }
    }
    assert!(moved);
}

#[test]
fn point_light_sample_for_a_given_direction() {
    let light = PointLight { origin: at(0, 5, 0), radius: Fixed::ratio(1, 2), color: at(1, 1, 1) };
    let s = light.sample_with(at(0, 0, 0), at(0, 0, 1));
    assert_eq!(s.shadow_ray_target, in_raw(0, 5 * ONE, ONE / 2));
    // the light falls off as 1 / (5 - 0.5 + 1)
    assert_eq!(s.color, in_raw(780_903_144, 780_903_144, 780_903_144));
    assert_eq!(s.color.x, Fixed::one() / Fixed::ratio(11, 2));
}

#[test]
fn point_light_keeps_its_colour_where_the_falloff_is_one() {
    let light = PointLight { origin: at(0, 5, 0), radius: Fixed::from_int(2), color: at(3, 6, 9) };
    // at distance 2 from the centre: 1 / (2 - 2 + 1)
    let s = light.sample_with(at(0, 3, 0), at(1, 0, 0));
    assert_eq!(s.shadow_ray_target, at(2, 5, 0));
    assert_eq!(s.color, at(3, 6, 9));
    // at distance 4 from the centre: 1 / (4 - 2 + 1)
    let s = light.sample_with(at(0, 1, 0), at(1, 0, 0));
    assert_eq!(s.color, at(1, 2, 3));
}

#[test]
fn point_light_deep_inside_the_ball_turns_negative() {
    let light = PointLight { origin: at(0, 5, 0), radius: Fixed::from_int(7), color: at(3, 6, 9) };
    // at the centre: 1 / (0 - 7 + 1)
    let s = light.sample_with(at(0, 5, 0), at(1, 0, 0));
    assert_eq!(s.color, in_raw(-2_147_483_648, -4_294_967_296, -6_442_450_944));
}

#[test]
fn point_light_samples_lie_on_the_ball() {
    let light = PointLight { origin: at(0, 5, 0), radius: Fixed::from_int(2), color: at(1, 1, 1) };
    let first = light.sample(at(0, 0, 0));
    let mut moved = false;
    for _ in 0..200 {
        let s = light.sample(at(0, 0, 0));
        let d = (s.shadow_ray_target - light.origin).magnitude().raw;
        assert!((d - 2 * ONE).abs() < 10_000);
        assert_eq!(s.color, first.color);
        if s.shadow_ray_target != first.shadow_ray_target {
            moved = true;
        }
    }
    assert!(moved);
}

#[test]
fn either_kind_of_light_samples_as_what_it_holds() {
    let still = Light::from(sun(Fixed::zero()));
    assert_eq!(
        still.sample(at(1, 2, 3)),
        sun(Fixed::zero()).sample_with(at(1, 2, 3), at(1, 0, 0), Fixed::zero())
    );
    let lamp = PointLight { origin: at(0, 5, 0), radius: Fixed::zero(), color: at(1, 1, 1) };
    let held = Light::from(lamp);
    assert_eq!(held.sample(at(0, 0, 0)), lamp.sample_with(at(0, 0, 0), at(0, 0, 1)));
}
