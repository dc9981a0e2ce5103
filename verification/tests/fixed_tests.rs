use raymarch::fixed::integer_root;
use raymarch::fixed::Fixed;
use raymarch::fixed::ONE;
use raymarch::fixed::RAW_MAX;
use raymarch::fixed::RAW_MIN;

fn raw(v: i64) -> Fixed {
    Fixed::from_raw(v)
}

#[test]
fn one_plus_one_is_two() {
    let two = Fixed::one() + Fixed::one();
    assert_eq!(two.raw, 2 * ONE);
}

#[test]
fn constructors_give_their_raw_values() {
    assert_eq!(Fixed::zero().raw, 0);
    assert_eq!(Fixed::one().raw, 4_294_967_296);
    assert_eq!(Fixed::max_value().raw, i64::MAX);
    assert_eq!(Fixed::from_raw(-17).raw, -17);
    assert_eq!(Fixed::from_int(3).raw, 3 * ONE);
    assert_eq!(Fixed::from_int(-3).raw, -3 * ONE);
}

#[test]
fn from_int_saturates_out_of_range() {
    assert_eq!(Fixed::from_int(2_147_483_647).raw, 2_147_483_647 * ONE);
    assert_eq!(Fixed::from_int(2_147_483_648).raw, RAW_MAX);
    assert_eq!(Fixed::from_int(-2_147_483_648).raw, RAW_MIN);
    assert_eq!(Fixed::from_int(-2_147_483_649).raw, RAW_MIN);
    assert_eq!(Fixed::from_int(i64::MAX).raw, RAW_MAX);
    assert_eq!(Fixed::from_int(i64::MIN).raw, RAW_MIN);
}

#[test]
fn sum_and_difference_saturate() {
    assert_eq!((raw(5) + raw(-7)).raw, -2);
    assert_eq!((raw(5) - raw(-7)).raw, 12);
    assert_eq!((raw(RAW_MAX) + raw(1)).raw, RAW_MAX);
    assert_eq!((raw(RAW_MIN) + raw(-1)).raw, RAW_MIN);
    assert_eq!((raw(RAW_MIN) - raw(1)).raw, RAW_MIN);
    assert_eq!((raw(RAW_MAX) - raw(-1)).raw, RAW_MAX);
    assert_eq!((raw(RAW_MAX) + raw(RAW_MIN)).raw, -1);
}

#[test]
fn negation_saturates_at_the_smallest_number() {
    assert_eq!((-raw(5)).raw, -5);
    assert_eq!((-raw(-5)).raw, 5);
    assert_eq!((-raw(0)).raw, 0);
    assert_eq!((-raw(RAW_MIN)).raw, RAW_MAX);
    assert_eq!((-raw(RAW_MAX)).raw, -RAW_MAX);
}

#[test]
fn product_rounds_toward_zero() {
    assert_eq!((Fixed::from_int(3) * Fixed::from_int(4)).raw, 12 * ONE);
    assert_eq!((Fixed::from_int(-3) * Fixed::from_int(4)).raw, -12 * ONE);
    // one raw step times one half is half a raw step, which rounds to zero
    // from both sides
    assert_eq!((raw(1) * raw(ONE / 2)).raw, 0);
    assert_eq!((raw(-1) * raw(ONE / 2)).raw, 0);
    assert_eq!((raw(3) * raw(ONE / 2)).raw, 1);
    assert_eq!((raw(-3) * raw(ONE / 2)).raw, -1);
    assert_eq!((raw(12_345) * Fixed::one()).raw, 12_345);
    assert_eq!((raw(-12_345) * Fixed::one()).raw, -12_345);
    assert_eq!((raw(12_345) * Fixed::zero()).raw, 0);
}

#[test]
fn product_saturates() {
    let big = Fixed::from_int(100_000);
    assert_eq!((big * big).raw, RAW_MAX);
    assert_eq!((big * -big).raw, RAW_MIN);
    assert_eq!((raw(RAW_MIN) * raw(RAW_MIN)).raw, RAW_MAX);
    assert_eq!((raw(RAW_MIN) * Fixed::one()).raw, RAW_MIN);
}

#[test]
fn ratio_rounds_toward_zero() {
    assert_eq!((Fixed::from_int(1) / Fixed::from_int(2)).raw, ONE / 2);
    assert_eq!((Fixed::from_int(1) / Fixed::from_int(3)).raw, 1_431_655_765);
    assert_eq!((Fixed::from_int(-1) / Fixed::from_int(3)).raw, -1_431_655_765);
    assert_eq!((Fixed::from_int(1) / Fixed::from_int(-3)).raw, -1_431_655_765);
    assert_eq!((Fixed::from_int(-1) / Fixed::from_int(-3)).raw, 1_431_655_765);
    assert_eq!((Fixed::from_int(7) / Fixed::one()).raw, 7 * ONE);
}

#[test]
fn dividing_by_zero_gives_the_extreme_of_the_same_sign() {
    assert_eq!((raw(1) / raw(0)).raw, RAW_MAX);
    assert_eq!((raw(-1) / raw(0)).raw, RAW_MIN);
    assert_eq!((raw(0) / raw(0)).raw, 0);
}

#[test]
fn ratio_saturates() {
    assert_eq!((Fixed::from_int(100_000) / raw(1)).raw, RAW_MAX);
    assert_eq!((Fixed::from_int(-100_000) / raw(1)).raw, RAW_MIN);
    assert_eq!((raw(RAW_MIN) / Fixed::from_int(-1)).raw, RAW_MAX);
}

#[test]
fn remainder_has_the_sign_of_the_dividend() {
    assert_eq!((raw(7) % raw(3)).raw, 1);
    assert_eq!((raw(-7) % raw(3)).raw, -1);
    assert_eq!((raw(7) % raw(-3)).raw, 1);
    assert_eq!((raw(-7) % raw(-3)).raw, -1);
    assert_eq!((raw(7) % raw(0)).raw, 0);
    assert_eq!((raw(RAW_MIN) % raw(-1)).raw, 0);
    let five_halves = Fixed::ratio(5, 2);
    assert_eq!((five_halves % Fixed::one()).raw, ONE / 2);
}

#[test]
fn ratio_of_whole_numbers() {
    assert_eq!(Fixed::ratio(9, 10).raw, 3_865_470_566);
    assert_eq!(Fixed::ratio(1, 2).raw, 2_147_483_648);
    assert_eq!(Fixed::ratio(-1, 4).raw, -1_073_741_824);
    assert_eq!(Fixed::ratio(90_537, 1_000_000_000).raw, 388_853);
    assert_eq!(Fixed::ratio(5, 0).raw, RAW_MAX);
    assert_eq!(Fixed::ratio(-5, 0).raw, RAW_MIN);
    assert_eq!(Fixed::ratio(0, 0).raw, 0);
}

#[test]
fn absolute_value() {
    assert_eq!(raw(-9).abs().raw, 9);
    assert_eq!(raw(9).abs().raw, 9);
    assert_eq!(raw(RAW_MIN).abs().raw, RAW_MAX);
    assert_eq!(raw(RAW_MIN).abs_wide(), 9_223_372_036_854_775_808u128);
    assert_eq!(raw(-9).abs_wide(), 9u128);
}

#[test]
fn smaller_and_larger() {
    assert_eq!(raw(3).min(raw(4)).raw, 3);
    assert_eq!(raw(4).min(raw(3)).raw, 3);
    assert_eq!(raw(-3).max(raw(-4)).raw, -3);
    assert_eq!(raw(-4).max(raw(-3)).raw, -3);
    assert_eq!(raw(5).max(raw(5)).raw, 5);
}

#[test]
fn saturated_clamps_into_the_unit_interval() {
    assert_eq!(raw(-1).saturated().raw, 0);
    assert_eq!(raw(0).saturated().raw, 0);
    assert_eq!(raw(ONE / 3).saturated().raw, ONE / 3);
    assert_eq!(raw(ONE).saturated().raw, ONE);
    assert_eq!(raw(ONE + 1).saturated().raw, ONE);
    assert_eq!(raw(RAW_MAX).saturated().raw, ONE);
    assert_eq!(raw(RAW_MIN).saturated().raw, 0);
}

#[test]
fn channel_to_byte() {
    assert_eq!(Fixed::zero().to_byte(), 0);
    assert_eq!(Fixed::one().to_byte(), 255);
    assert_eq!(Fixed::ratio(1, 2).to_byte(), 127);
    assert_eq!(Fixed::ratio(1, 255).to_byte(), 0);
    assert_eq!(Fixed::ratio(2, 255).to_byte(), 1);
    assert_eq!(raw(ONE - 1).to_byte(), 254);
    assert_eq!(Fixed::from_int(7).to_byte(), 255);
    assert_eq!(Fixed::from_int(-7).to_byte(), 0);
    assert_eq!(raw(RAW_MAX).to_byte(), 255);
    assert_eq!(raw(RAW_MIN).to_byte(), 0);
}

#[test]
fn integer_square_roots() {
    assert_eq!(integer_root(0), 0);
    assert_eq!(integer_root(1), 1);
    assert_eq!(integer_root(2), 1);
    assert_eq!(integer_root(3), 1);
    assert_eq!(integer_root(4), 2);
    assert_eq!(integer_root(15), 3);
    assert_eq!(integer_root(16), 4);
    assert_eq!(integer_root(17), 4);
    assert_eq!(integer_root(18_446_744_073_709_551_616), 4_294_967_296);
    assert_eq!(integer_root(18_446_744_073_709_551_615), 4_294_967_295);
    assert_eq!(integer_root(u128::MAX), u64::MAX);
}

#[test]
fn whole_numbers_convert() {
    assert_eq!(Fixed::from(5i32).raw, 5 * ONE);
    assert_eq!(Fixed::from(-5i32).raw, -5 * ONE);
    assert_eq!(Fixed::from(5u32).raw, 5 * ONE);
    assert_eq!(Fixed::from(u32::MAX).raw, RAW_MAX);
    assert_eq!(Fixed::from(5i64).raw, 5 * ONE);
    assert_eq!(Fixed::from(5u64).raw, 5 * ONE);
    assert_eq!(Fixed::from(u64::MAX).raw, RAW_MAX);
    assert_eq!(Fixed::from(5isize).raw, 5 * ONE);
    assert_eq!(Fixed::from(5usize).raw, 5 * ONE);
    assert_eq!(Fixed::from(usize::MAX).raw, RAW_MAX);
}

#[test]
fn numbers_are_ordered_by_their_raw_values() {
    assert!(raw(-1) < raw(0));
    assert!(raw(ONE) > raw(ONE - 1));
    assert!(raw(7) == raw(7));
    assert!(raw(RAW_MIN) < raw(RAW_MAX));
}
