use raymarch::fixed::Fixed;
use raymarch::fixed::ONE;
use raymarch::fixed::RAW_MAX;
use raymarch::fixed::RAW_MIN;
use raymarch::AcesFilmicCurve;
use raymarch::AdjustExposure;
use raymarch::PostProcessor;
use raymarch::Vec3;

fn c(x: i64, y: i64, z: i64) -> Vec3 {
    Vec3::new(Fixed::from_raw(x), Fixed::from_raw(y), Fixed::from_raw(z))
}

fn tenths(x: i64, y: i64, z: i64) -> Vec3 {
    Vec3::new(Fixed::ratio(x, 10), Fixed::ratio(y, 10), Fixed::ratio(z, 10))
}

fn in_unit_range(v: Vec3) -> bool {
    let ok = |f: Fixed| f.raw >= 0 && f.raw <= ONE;
    ok(v.x) && ok(v.y) && ok(v.z)
}

#[test]
fn exposure_scales_every_channel() {
    let gain = AdjustExposure(Fixed::ratio(8, 10));
    assert_eq!(
        gain.process_pixel(tenths(1, 5, 9)),
        c(343_597_383, 1_717_986_918, 3_092_376_452)
    );
    assert_eq!(AdjustExposure(Fixed::from_int(2)).process_pixel(c(1, 2, 3)), c(2, 4, 6));
    assert_eq!(AdjustExposure(Fixed::zero()).process_pixel(c(1, 2, 3)), c(0, 0, 0));
}

#[test]
fn tone_curve_maps_black_to_black() {
    assert_eq!(AcesFilmicCurve.process_pixel(c(0, 0, 0)), c(0, 0, 0));
}

#[test]
fn tone_curve_maps_very_dark_colours_to_black() {
    let dark = Fixed::ratio(1, 1_000).raw;
    assert_eq!(dark, 4_294_967);
    let inputs = [
        c(dark, dark, dark),
        c(dark, 0, 0),
        c(0, dark, 0),
        c(0, 0, dark),
        c(1, dark / 2, dark - 1),
        c(dark / 3, dark, 7),
    ];
    for input in inputs {
        assert_eq!(AcesFilmicCurve.process_pixel(input), c(0, 0, 0));
    }
}

#[test]
fn tone_curve_is_close_to_black_for_very_small_inputs() {
    let out = AcesFilmicCurve.process_pixel(c(ONE / 10_000, ONE / 10_000, ONE / 10_000));
    assert!(in_unit_range(out));
    assert!(out.x.raw < ONE / 1_000);
    assert!(out.y.raw < ONE / 1_000);
    assert!(out.z.raw < ONE / 1_000);
}

#[test]
fn tone_curve_values() {
    assert_eq!(
        AcesFilmicCurve.process_pixel(c(ONE / 2, ONE / 2, ONE / 2)),
        c(1_607_641_966, 1_607_641_967, 1_607_625_889)
    );
    assert_eq!(
        AcesFilmicCurve.process_pixel(c(ONE, ONE, ONE)),
        c(2_659_080_512, 2_659_080_510, 2_659_053_920)
    );
    assert_eq!(
        AcesFilmicCurve.process_pixel(tenths(1, 5, 9)),
        c(358_577_950, 1_598_826_601, 2_443_921_784)
    );
}

#[test]
fn tone_curve_clamps_bright_colours() {
    let out = AcesFilmicCurve.process_pixel(c(10 * ONE, 20 * ONE, 30 * ONE));
    assert_eq!(out, c(4_218_457_761, 4_274_943_578, 4_294_967_296));
    assert!(in_unit_range(out));
}

#[test]
fn tone_curve_clamps_colours_that_are_out_of_range() {
    let inputs = [
        c(-ONE, -2 * ONE, -3 * ONE),
        c(RAW_MAX, RAW_MAX, RAW_MAX),
        c(RAW_MIN, RAW_MIN, RAW_MIN),
        c(RAW_MAX, RAW_MIN, 0),
        c(-1, 1, 0),
        c(1_000 * ONE, -1_000 * ONE, 5),
    ];
    for input in inputs {
        assert!(in_unit_range(AcesFilmicCurve.process_pixel(input)));
    }
    assert_eq!(
        AcesFilmicCurve.process_pixel(c(RAW_MAX, RAW_MIN, 0)),
        c(4_294_967_296, 4_294_967_296, 4_294_924_346)
    );
}

#[test]
fn the_empty_chain_changes_nothing() {
    assert_eq!(().process_pixel(c(1, -2, 3)), c(1, -2, 3));
    assert_eq!(().process_pixel(c(RAW_MAX, RAW_MIN, 0)), c(RAW_MAX, RAW_MIN, 0));
}

#[test]
fn a_chain_of_two_applies_the_first_stage_first() {
    let gain = AdjustExposure(Fixed::ratio(8, 10));
    let x = tenths(1, 5, 9);
    let gain_then_curve = (gain, AcesFilmicCurve);
    let curve_then_gain = (AcesFilmicCurve, gain);
    assert_eq!(
        gain_then_curve.process_pixel(x),
        AcesFilmicCurve.process_pixel(gain.process_pixel(x))
    );
    assert_eq!(
        curve_then_gain.process_pixel(x),
        gain.process_pixel(AcesFilmicCurve.process_pixel(x))
    );
    assert_eq!(gain_then_curve.process_pixel(x), c(204_074_985, 1_269_528_175, 2_099_220_282));
    assert_eq!(curve_then_gain.process_pixel(x), c(286_862_359, 1_279_061_280, 1_955_137_426));
    assert_ne!(gain_then_curve.process_pixel(x), curve_then_gain.process_pixel(x));
}

#[test]
fn a_chain_of_three_applies_its_stages_from_left_to_right() {
    let gain = AdjustExposure(Fixed::ratio(8, 10));
    let x = tenths(1, 5, 9);
    let a = (gain, gain, AcesFilmicCurve);
    let b = (gain, AcesFilmicCurve, gain);
    assert_eq!(
        a.process_pixel(x),
        AcesFilmicCurve.process_pixel(gain.process_pixel(gain.process_pixel(x)))
    );
    assert_eq!(
        b.process_pixel(x),
        gain.process_pixel(AcesFilmicCurve.process_pixel(gain.process_pixel(x)))
    );
    assert_eq!(a.process_pixel(x), c(104_876_505, 977_214_237, 1_747_429_203));
    assert_eq!(b.process_pixel(x), c(163_259_987, 1_015_622_539, 1_679_376_225));
}

#[test]
fn chains_can_be_grouped_freely() {
    let gain = AdjustExposure(Fixed::ratio(8, 10));
    let double = AdjustExposure(Fixed::from_int(2));
    let x = tenths(1, 5, 9);
    let flat = (gain, AcesFilmicCurve, double).process_pixel(x);
    assert_eq!(((gain, AcesFilmicCurve), double).process_pixel(x), flat);
    assert_eq!((gain, (AcesFilmicCurve, double)).process_pixel(x), flat);
    assert_eq!(((), gain, (), AcesFilmicCurve, (), double).process_pixel(x), flat);
}

#[test]
fn chains_of_four_to_seven_stages() {
    let double = AdjustExposure(Fixed::from_int(2));
    let plus_curve = AcesFilmicCurve;
    let x = c(1, 2, 3);
    assert_eq!((double, double, double, double).process_pixel(x), c(16, 32, 48));
    assert_eq!((double, double, double, double, double).process_pixel(x), c(32, 64, 96));
    assert_eq!(
        (double, double, double, double, double, double).process_pixel(x),
        c(64, 128, 192)
    );
    assert_eq!(
        (double, double, double, double, double, double, double).process_pixel(x),
        c(128, 256, 384)
    );
    let last = (double, double, double, double, double, double, plus_curve).process_pixel(x);
    assert_eq!(last, plus_curve.process_pixel(c(64, 128, 192)));
    let first = (plus_curve, double, double, double, double, double, double).process_pixel(x);
    assert_eq!(first, plus_curve.process_pixel(x) * Fixed::from_int(64));
}
