//! Signed fixed-point numbers with 32 fractional bits.
//!
//! Every scalar of the renderer is a [`Fixed`]: a 64-bit integer `raw` that
//! stands for the rational `raw / 2^32`. All arithmetic is total and
//! saturating, so no operation overflows, traps or depends on the platform,
//! and every result is an exact function of its operands.
//!
//! The model of a number is its raw value as a mathematical integer, `x@`.
//! The functions `raw_sum`, `raw_product` and their like say what each
//! operation does to raw values. The operators `+ - * / %`, the unary `-` and
//! the comparisons are defined on `Fixed` in specifications too, through the
//! functions `spec_add`, `spec_sub` and so on, so that a contract reads like
//! the code that it describes.

use std::ops::Add;
use std::ops::Div;
use std::ops::Mul;
use std::ops::Neg;
use std::ops::Rem;
use std::ops::Sub;
use vstd::arithmetic::div_mod::lemma_div_is_ordered;
use vstd::arithmetic::div_mod::lemma_div_is_ordered_by_denominator;
use vstd::arithmetic::div_mod::lemma_fundamental_div_mod;
use vstd::arithmetic::div_mod::lemma_mod_bound;
use vstd::prelude::*;
use vstd::std_specs::ops::AddSpecImpl;
use vstd::std_specs::ops::DivSpecImpl;
use vstd::std_specs::ops::MulSpecImpl;
use vstd::std_specs::ops::NegSpecImpl;
use vstd::std_specs::ops::RemSpecImpl;
use vstd::std_specs::ops::SubSpecImpl;

verus! {

/// The raw integer that stands for the number one: `2^32`.
pub const ONE: i64 = 4_294_967_296;

/// `ONE` as an unsigned wide integer, for intermediate results.
const ONE_WIDE: u128 = 4_294_967_296;

/// The largest raw value.
pub const RAW_MAX: i64 = 9_223_372_036_854_775_807;

/// The smallest raw value.
pub const RAW_MIN: i64 = -9_223_372_036_854_775_808;

/// Clamps an unbounded integer into the raw range.
pub open spec fn saturate(v: int) -> int {
    if v > RAW_MAX {
        RAW_MAX as int
    } else if v < RAW_MIN {
        RAW_MIN as int
    } else {
        v
    }
}

/// The distance of an integer from zero.
pub open spec fn magnitude(v: int) -> int {
    if v < 0 {
        -v
    } else {
        v
    }
}

/// The quotient of `n` by `d`, rounded toward zero. Zero when `d` is zero.
pub open spec fn quotient(n: int, d: int) -> int {
    if d == 0 {
        0
    } else if (n < 0) == (d < 0) {
        magnitude(n) / magnitude(d)
    } else {
        -(magnitude(n) / magnitude(d))
    }
}

/// What is left of `n` after taking out whole multiples of `d`; it has the
/// sign of `n`. Zero when `d` is zero.
pub open spec fn remainder(n: int, d: int) -> int {
    if d == 0 {
        0
    } else if n < 0 {
        -(magnitude(n) % magnitude(d))
    } else {
        magnitude(n) % magnitude(d)
    }
}

/// The raw sum of two raw values.
pub open spec fn raw_sum(a: int, b: int) -> int {
    saturate(a + b)
}

/// The raw difference of two raw values.
pub open spec fn raw_difference(a: int, b: int) -> int {
    saturate(a - b)
}

/// The raw product of two raw values: the exact product, rescaled and
/// rounded toward zero.
pub open spec fn raw_product(a: int, b: int) -> int {
    saturate(quotient(a * b, ONE as int))
}

/// The raw ratio of two raw values, rounded toward zero. Dividing by zero
/// gives the extreme value with the sign of the dividend, and zero for
/// zero over zero.
pub open spec fn raw_ratio(a: int, b: int) -> int {
    if b == 0 {
        if a > 0 {
            RAW_MAX as int
        } else if a < 0 {
            RAW_MIN as int
        } else {
            0
        }
    } else {
        saturate(quotient(a * ONE, b))
    }
}

/// `r` is the integer square root of `n`, rounded down.
pub open spec fn is_root(n: nat, r: nat) -> bool {
    r * r <= n < (r + 1) * (r + 1)
}

/// The integer square root of `n`, rounded down.
pub open spec fn root(n: nat) -> nat {
    choose|r: nat| is_root(n, r)
}

/// A number has at most one integer square root.
pub proof fn lemma_root_unique(n: nat, r: nat, s: nat)
    requires
        is_root(n, r),
        is_root(n, s),
    ensures
        r == s,
{
    if r < s {
        assert((r + 1) * (r + 1) <= s * s) by (nonlinear_arith)
            requires
                r + 1 <= s,
        ;
    }
    if s < r {
        assert((s + 1) * (s + 1) <= r * r) by (nonlinear_arith)
            requires
                s + 1 <= r,
        ;
    }
}

/// Whatever satisfies `is_root` is the root.
pub proof fn lemma_root_is(n: nat, r: nat)
    requires
        is_root(n, r),
    ensures
        root(n) == r,
{
    lemma_root_unique(n, r, root(n));
}

/// Every number has an integer square root.
pub proof fn lemma_root_exists(n: nat)
    ensures
        is_root(n, root(n)),
    decreases n,
{
    if n == 0 {
        assert(is_root(0, 0)) by (nonlinear_arith);
    } else {
        lemma_root_exists((n - 1) as nat);
        let r = root((n - 1) as nat);
        if (r + 1) * (r + 1) <= n {
            assert((r + 2) * (r + 2) > n) by (nonlinear_arith)
                requires
                    n - 1 < (r + 1) * (r + 1),
            ;
            assert(is_root(n, r + 1));
        } else {
            assert(is_root(n, r));
        }
    }
}

/// The root of a number lies between two bounds if the number lies between
/// the square of the lower one and the square of the successor of the upper
/// one.
pub proof fn lemma_root_between(n: nat, low: nat, high: nat)
    requires
        low * low <= n < (high + 1) * (high + 1),
    ensures
        low <= root(n) <= high,
{
    lemma_root_exists(n);
    let r = root(n);
    if r < low {
        assert((r + 1) * (r + 1) <= low * low) by (nonlinear_arith)
            requires
                r + 1 <= low,
        ;
    }
    if r > high {
        assert((high + 1) * (high + 1) <= r * r) by (nonlinear_arith)
            requires
                high + 1 <= r,
        ;
    }
}

/// The integer square root of a 128-bit number.
pub fn integer_root(n: u128) -> (r: u64)
    ensures
        is_root(n as nat, r as nat),
        r == root(n as nat),
{
    let mut lo: u128 = 0;
    let mut hi: u128 = 18_446_744_073_709_551_616;
    assert(0u128 * 0u128 == 0);
    assert(18_446_744_073_709_551_616int * 18_446_744_073_709_551_616int > u128::MAX);
    while hi - lo > 1
        invariant
            lo < hi <= 18_446_744_073_709_551_616,
            lo * lo <= n < hi * hi,
        decreases hi - lo,
    {
        let mid: u128 = lo + (hi - lo) / 2;
        assert(mid * mid <= u128::MAX) by (nonlinear_arith)
            requires
                mid <= 18_446_744_073_709_551_615,
        ;
        if mid * mid <= n {
            lo = mid;
        } else {
            hi = mid;
        }
    }
    proof {
        lemma_root_is(n as nat, lo as nat);
    }
    lo as u64
}

/// The distance of a raw value from zero, which always fits 128 bits.
fn magnitude_of(v: i64) -> (m: u128)
    ensures
        m == magnitude(v as int),
        m <= 9_223_372_036_854_775_808,
{
    if v < 0 {
        (-(v as i128)) as u128
    } else {
        v as u128
    }
}

/// Gives a magnitude its sign back and clamps it into the raw range.
fn narrow(negative: bool, m: u128) -> (r: i64)
    ensures
        r == saturate(
            if negative {
                -(m as int)
            } else {
                m as int
            },
        ),
{
    if negative {
        if m >= 9_223_372_036_854_775_808 {
            RAW_MIN
        } else {
            -(m as i64)
        }
    } else {
        if m > 9_223_372_036_854_775_807 {
            RAW_MAX
        } else {
            m as i64
        }
    }
}

/// A fixed-point number: `raw / 2^32`.
#[derive(Clone, Copy, Debug, PartialEq, Eq, Structural, PartialOrd, Ord, Hash)]
pub struct Fixed {
    pub raw: i64,
}

impl View for Fixed {
    type V = int;

    /// The raw integer, as a mathematical integer.
    open spec fn view(&self) -> int {
        self.raw as int
    }
}

impl Fixed {
    /// The number with the given raw value, in specifications.
    pub open spec fn of(raw: int) -> Fixed {
        Fixed { raw: raw as i64 }
    }

    /// What `+` means in specifications: the sum, clamped into the
    /// representable range.
    pub open spec fn spec_add(self, rhs: Fixed) -> Fixed {
        Fixed::of(raw_sum(self@, rhs@))
    }

    /// What `-` means in specifications: the difference, clamped into the
    /// representable range.
    pub open spec fn spec_sub(self, rhs: Fixed) -> Fixed {
        Fixed::of(raw_difference(self@, rhs@))
    }

    /// What `*` means in specifications: the product, rounded toward zero
    /// and clamped into the representable range.
    pub open spec fn spec_mul(self, rhs: Fixed) -> Fixed {
        Fixed::of(raw_product(self@, rhs@))
    }

    /// What `/` means in specifications: the ratio, rounded toward zero and
    /// clamped into the representable range.
    pub open spec fn spec_euclidean_or_real_div(self, rhs: Fixed) -> Fixed {
        Fixed::of(raw_ratio(self@, rhs@))
    }

    /// What `%` means in specifications: the remainder, with the sign of
    /// the dividend.
    pub open spec fn spec_euclidean_mod(self, rhs: Fixed) -> Fixed {
        Fixed::of(remainder(self@, rhs@))
    }

    /// What the unary `-` means in specifications: the negation; the
    /// largest number for the smallest one.
    pub open spec fn spec_neg(self) -> Fixed {
        Fixed::of(saturate(-self@))
    }

    /// What `<` means in specifications.
    pub open spec fn spec_lt(self, rhs: Fixed) -> bool {
        self@ < rhs@
    }

    /// What `<=` means in specifications.
    pub open spec fn spec_le(self, rhs: Fixed) -> bool {
        self@ <= rhs@
    }

    /// What `>` means in specifications.
    pub open spec fn spec_gt(self, rhs: Fixed) -> bool {
        self@ > rhs@
    }

    /// What `>=` means in specifications.
    pub open spec fn spec_ge(self, rhs: Fixed) -> bool {
        self@ >= rhs@
    }

    /// The absolute value, in specifications.
    pub open spec fn spec_abs(self) -> Fixed {
        Fixed::of(saturate(magnitude(self@)))
    }

    /// The smaller of two numbers, in specifications.
    pub open spec fn spec_min(self, other: Fixed) -> Fixed {
        if other@ < self@ {
            other
        } else {
            self
        }
    }

    /// The larger of two numbers, in specifications.
    pub open spec fn spec_max(self, other: Fixed) -> Fixed {
        if other@ > self@ {
            other
        } else {
            self
        }
    }

    /// The number clamped into `[0, 1]`, in specifications.
    pub open spec fn spec_saturated(self) -> Fixed {
        if self@ < 0 {
            Fixed::of(0)
        } else if self@ > ONE {
            Fixed::of(ONE as int)
        } else {
            self
        }
    }

    /// The whole number `n`, in specifications.
    pub open spec fn spec_from_int(n: int) -> Fixed {
        Fixed::of(saturate(n * 4_294_967_296))
    }

    /// The fraction `num / den`, in specifications.
    pub open spec fn spec_ratio(num: int, den: int) -> Fixed {
        Fixed::of(raw_ratio(num, den))
    }

    /// The byte that encodes a colour channel, in specifications: the
    /// number clamped into `[0, 1]`, times 255, rounded down.
    pub open spec fn spec_to_byte(self) -> u8 {
        ((self.spec_saturated()@ * 255) / (ONE as int)) as u8
    }

    /// The number with the given raw value.
    pub fn from_raw(raw: i64) -> (r: Fixed)
        ensures
            r@ == raw,
    {
        Fixed { raw }
    }

    /// Zero.
    pub fn zero() -> (r: Fixed)
        ensures
            r@ == 0,
    {
        Fixed { raw: 0 }
    }

    /// One.
    pub fn one() -> (r: Fixed)
        ensures
            r@ == ONE,
    {
        Fixed { raw: ONE }
    }

    /// The largest number.
    pub fn max_value() -> (r: Fixed)
        ensures
            r@ == RAW_MAX,
    {
        Fixed { raw: RAW_MAX }
    }

    /// The whole number `n`, or the nearest extreme if `n` is out of range.
    pub fn from_int(n: i64) -> (r: Fixed)
        ensures
            r == Fixed::spec_from_int(n as int),
    {
        let m = magnitude_of(n);
        Fixed { raw: narrow(n < 0, m * ONE_WIDE) }
    }

    /// The fraction `num / den`, rounded toward zero. With a zero
    /// denominator the result is the extreme value with the sign of `num`,
    /// and zero for zero over zero.
    pub fn ratio(num: i64, den: i64) -> (r: Fixed)
        ensures
            r == Fixed::spec_ratio(num as int, den as int),
    {
        Fixed { raw: num } / Fixed { raw: den }
    }

    /// The absolute value; the largest number for the smallest one.
    pub fn abs(self) -> (r: Fixed)
        ensures
            r == self.spec_abs(),
    {
        Fixed { raw: narrow(false, magnitude_of(self.raw)) }
    }

    /// The distance from zero as a wide unsigned integer, which never
    /// saturates.
    pub fn abs_wide(self) -> (m: u128)
        ensures
            m == magnitude(self@),
            m <= 0x8000_0000_0000_0000,
    {
        magnitude_of(self.raw)
    }

    /// The smaller of two numbers.
    pub fn min(self, other: Fixed) -> (r: Fixed)
        ensures
            r == self.spec_min(other),
    {
        if other.raw < self.raw {
            other
        } else {
            self
        }
    }

    /// The larger of two numbers.
    pub fn max(self, other: Fixed) -> (r: Fixed)
        ensures
            r == self.spec_max(other),
    {
        if other.raw > self.raw {
            other
        } else {
            self
        }
    }

    /// The number clamped into `[0, 1]`.
    pub fn saturated(self) -> (r: Fixed)
        ensures
            r == self.spec_saturated(),
            0 <= r@ <= ONE,
    {
        if self.raw < 0 {
            Fixed { raw: 0 }
        } else if self.raw > ONE {
            Fixed { raw: ONE }
        } else {
            self
        }
    }

    /// The byte that encodes a colour channel: the number clamped into
    /// `[0, 1]`, times 255, rounded down.
    pub fn to_byte(self) -> (r: u8)
        ensures
            r == self.spec_to_byte(),
            self@ <= 0 ==> r == 0,
            self@ >= ONE ==> r == 255,
    {
        let c = self.saturated();
        let scaled: u128 = (c.raw as u128) * 255;
        (scaled / ONE_WIDE) as u8
    }
}

impl Add for Fixed {
    type Output = Fixed;

    /// The sum, clamped into the representable range.
    fn add(self, rhs: Fixed) -> (r: Fixed) {
        let wide: i128 = self.raw as i128 + rhs.raw as i128;
        if wide > RAW_MAX as i128 {
            Fixed { raw: RAW_MAX }
        } else if wide < RAW_MIN as i128 {
            Fixed { raw: RAW_MIN }
        } else {
            Fixed { raw: wide as i64 }
        }
    }
}

impl AddSpecImpl for Fixed {
    open spec fn obeys_add_spec() -> bool {
        true
    }

    open spec fn add_req(self, rhs: Fixed) -> bool {
        true
    }

    open spec fn add_spec(self, rhs: Fixed) -> Fixed {
        self + rhs
    }
}

impl Sub for Fixed {
    type Output = Fixed;

    /// The difference, clamped into the representable range.
    fn sub(self, rhs: Fixed) -> (r: Fixed) {
        let wide: i128 = self.raw as i128 - rhs.raw as i128;
        if wide > RAW_MAX as i128 {
            Fixed { raw: RAW_MAX }
        } else if wide < RAW_MIN as i128 {
            Fixed { raw: RAW_MIN }
        } else {
            Fixed { raw: wide as i64 }
        }
    }
}

impl SubSpecImpl for Fixed {
    open spec fn obeys_sub_spec() -> bool {
        true
    }

    open spec fn sub_req(self, rhs: Fixed) -> bool {
        true
    }

    open spec fn sub_spec(self, rhs: Fixed) -> Fixed {
        self - rhs
    }
}

impl Neg for Fixed {
    type Output = Fixed;

    /// The negation; the largest number for the smallest one.
    fn neg(self) -> (r: Fixed) {
        if self.raw == RAW_MIN {
            Fixed { raw: RAW_MAX }
        } else {
            Fixed { raw: -self.raw }
        }
    }
}

impl NegSpecImpl for Fixed {
    open spec fn obeys_neg_spec() -> bool {
        true
    }

    open spec fn neg_req(self) -> bool {
        true
    }

    open spec fn neg_spec(self) -> Fixed {
        -self
    }
}

/// The magnitude of a product is the product of the magnitudes, and the
/// product is negative exactly when one factor is negative and none is zero.
proof fn lemma_product_sign(a: int, b: int)
    ensures
        magnitude(a * b) == magnitude(a) * magnitude(b),
        (a * b < 0) == ((a < 0) != (b < 0) && a != 0 && b != 0),
        magnitude(a) * magnitude(b) >= 0,
{
    assert(magnitude(a * b) == magnitude(a) * magnitude(b) && ((a * b < 0) == ((a < 0) != (b < 0)
        && a != 0 && b != 0)) && magnitude(a) * magnitude(b) >= 0) by (nonlinear_arith);
}

impl Mul for Fixed {
    type Output = Fixed;

    /// The product, rounded toward zero and clamped into the representable
    /// range.
    fn mul(self, rhs: Fixed) -> (r: Fixed) {
        let a = magnitude_of(self.raw);
        let b = magnitude_of(rhs.raw);
        assert(a * b <= 9_223_372_036_854_775_808 * 9_223_372_036_854_775_808) by (nonlinear_arith)
            requires
                a <= 9_223_372_036_854_775_808,
                b <= 9_223_372_036_854_775_808,
        ;
        let q: u128 = (a * b) / ONE_WIDE;
        let negative = (self.raw < 0) != (rhs.raw < 0);
        proof {
            lemma_product_sign(self.raw as int, rhs.raw as int);
        }
        Fixed { raw: narrow(negative, q) }
    }
}

impl MulSpecImpl for Fixed {
    open spec fn obeys_mul_spec() -> bool {
        true
    }

    open spec fn mul_req(self, rhs: Fixed) -> bool {
        true
    }

    open spec fn mul_spec(self, rhs: Fixed) -> Fixed {
        self * rhs
    }
}

impl Div for Fixed {
    type Output = Fixed;

    /// The ratio, rounded toward zero and clamped into the representable
    /// range. Dividing by zero gives the extreme value with the sign of the
    /// dividend, and zero for zero over zero.
    fn div(self, rhs: Fixed) -> (r: Fixed) {
        if rhs.raw == 0 {
            if self.raw > 0 {
                Fixed { raw: RAW_MAX }
            } else if self.raw < 0 {
                Fixed { raw: RAW_MIN }
            } else {
                Fixed { raw: 0 }
            }
        } else {
            let a = magnitude_of(self.raw);
            let b = magnitude_of(rhs.raw);
            let q: u128 = (a * ONE_WIDE) / b;
            let negative = (self.raw < 0) != (rhs.raw < 0);
            Fixed { raw: narrow(negative, q) }
        }
    }
}

impl DivSpecImpl for Fixed {
    open spec fn obeys_div_spec() -> bool {
        true
    }

    open spec fn div_req(self, rhs: Fixed) -> bool {
        true
    }

    open spec fn div_spec(self, rhs: Fixed) -> Fixed {
        self / rhs
    }
}

impl Rem for Fixed {
    type Output = Fixed;

    /// What is left after taking out whole multiples of `rhs`; it has the
    /// sign of `self`. Zero when `rhs` is zero.
    fn rem(self, rhs: Fixed) -> (r: Fixed) {
        if rhs.raw == 0 {
            Fixed { raw: 0 }
        } else {
            let a = magnitude_of(self.raw);
            let b = magnitude_of(rhs.raw);
            Fixed { raw: narrow(self.raw < 0, a % b) }
        }
    }
}

impl RemSpecImpl for Fixed {
    open spec fn obeys_rem_spec() -> bool {
        true
    }

    open spec fn rem_req(self, rhs: Fixed) -> bool {
        true
    }

    open spec fn rem_spec(self, rhs: Fixed) -> Fixed {
        self % rhs
    }
}

/// The whole numbers nought and one, as fixed-point numbers.
pub proof fn lemma_nought_and_one()
    ensures
        Fixed::spec_from_int(0) == Fixed::of(0),
        Fixed::spec_from_int(1) == Fixed::of(ONE as int),
{
    assert(0int * 4_294_967_296 == 0);
}

/// Multiplying by one or by zero is exact: one leaves a number as it is,
/// zero gives zero.
pub proof fn lemma_product_with_one_or_zero(a: Fixed)
    ensures
        a * Fixed::of(ONE as int) == a,
        Fixed::of(ONE as int) * a == a,
        a * Fixed::of(0) == Fixed::of(0),
        Fixed::of(0) * a == Fixed::of(0),
{
    let v = a@;
    assert(magnitude(v * ONE) / (ONE as int) == magnitude(v) && magnitude(ONE * v) / (ONE as int)
        == magnitude(v) && ((v * ONE < 0) == (v < 0)) && ((ONE * v < 0) == (v < 0)) && v * 0 == 0
        && 0 * v == 0) by (nonlinear_arith)
        requires
            ONE == 4_294_967_296,
    ;
}

/// The product does not depend on the order of the factors.
pub proof fn lemma_product_commutes(a: Fixed, b: Fixed)
    ensures
        a * b == b * a,
{
    assert(a@ * b@ == b@ * a@) by (nonlinear_arith);
}

/// Negating a factor negates the product, as long as nothing saturates.
pub proof fn lemma_product_negates(a: Fixed, b: Fixed)
    requires
        b@ > RAW_MIN,
        RAW_MIN < (a * b)@ < RAW_MAX,
    ensures
        a * (-b) == -(a * b),
{
    assert(magnitude(a@ * (-b@)) == magnitude(a@ * b@) && ((a@ * (-b@) < 0) == (a@ * b@ > 0)))
        by (nonlinear_arith);
}

/// A number over itself is one, and zero over a number is zero.
pub proof fn lemma_ratio_of_itself(a: Fixed)
    requires
        a@ != 0,
    ensures
        a / a == Fixed::of(ONE as int),
        Fixed::of(0) / a == Fixed::of(0),
{
    let v = a@;
    let m = magnitude(v);
    assert(magnitude(v * ONE) == m * ONE && ((v * ONE < 0) == (v < 0)) && 0 * ONE == 0)
        by (nonlinear_arith)
        requires
            m == magnitude(v),
            ONE == 4_294_967_296,
    ;
    assert((m * ONE) / m == ONE as int) by (nonlinear_arith)
        requires
            m > 0,
    ;
    assert(0int / m == 0) by (nonlinear_arith)
        requires
            m > 0,
    ;
}

/// The root of a square is the number that was squared.
pub proof fn lemma_root_of_square(a: nat)
    ensures
        root(a * a) == a,
{
    assert(is_root(a * a, a)) by (nonlinear_arith);
    lemma_root_is(a * a, a);
}

/// Multiplying by a number between minus one and one does not make a
/// number larger in magnitude.
pub proof fn lemma_product_is_smaller(a: Fixed, b: Fixed)
    requires
        -ONE <= b@ <= ONE,
    ensures
        magnitude((a * b)@) <= magnitude(a@),
{
    let x = magnitude(a@);
    let y = magnitude(b@);
    assert(magnitude(a@ * b@) == x * y && 0 <= x * y <= x * ONE) by (nonlinear_arith)
        requires
            x == magnitude(a@),
            y == magnitude(b@),
            0 <= y <= ONE,
            ONE == 4_294_967_296,
    ;
    assert((x * y) / (ONE as int) <= x) by (nonlinear_arith)
        requires
            0 <= x * y <= x * ONE,
            ONE == 4_294_967_296,
    ;
    assert((x * y) / (ONE as int) >= 0) by (nonlinear_arith)
        requires
            0 <= x * y,
            ONE == 4_294_967_296,
    ;
}

/// The largest raw magnitude of a factor for which a product is sure not
/// to saturate, nor a sum of three such products: `2^46`.
pub const PRODUCT_BOUND: i64 = 0x4000_0000_0000;

/// What a product loses to rounding: the exact product of the raw values
/// less the raw product times one.
pub open spec fn product_error(a: Fixed, b: Fixed) -> int {
    a@ * b@ - (a * b)@ * ONE
}

/// A product loses less than one raw step to rounding, and is no larger
/// in magnitude than the exact product.
pub proof fn lemma_product_rounding(a: Fixed, b: Fixed)
    requires
        -PRODUCT_BOUND <= a@ <= PRODUCT_BOUND,
        -PRODUCT_BOUND <= b@ <= PRODUCT_BOUND,
    ensures
        -ONE < product_error(a, b) < ONE,
        magnitude((a * b)@) * ONE <= magnitude(a@) * magnitude(b@),
{
    let x = magnitude(a@);
    let y = magnitude(b@);
    let n = x * y;
    assert(magnitude(a@ * b@) == n && 0 <= n <= 0x4000_0000_0000 * 0x4000_0000_0000 && ((a@ * b@
        < 0) ==> a@ * b@ == -n) && ((a@ * b@ >= 0) ==> a@ * b@ == n)) by (nonlinear_arith)
        requires
            x == magnitude(a@),
            y == magnitude(b@),
            n == x * y,
            x <= 0x4000_0000_0000,
            y <= 0x4000_0000_0000,
    ;
    lemma_fundamental_div_mod(n, ONE as int);
    lemma_mod_bound(n, ONE as int);
    let q = n / (ONE as int);
    assert(0 <= q <= n) by (nonlinear_arith)
        requires
            n == ONE * q + n % (ONE as int),
            0 <= n % (ONE as int) < ONE,
            ONE == 4_294_967_296,
            n >= 0,
    ;
    assert(q * ONE == n - n % (ONE as int)) by (nonlinear_arith)
        requires
            n == ONE * q + n % (ONE as int),
    ;
    if a@ * b@ < 0 {
        assert((a * b)@ == -q);
        assert((-q) * ONE == -(q * ONE)) by (nonlinear_arith);
    } else {
        assert((a * b)@ == q);
    }
}

/// What a ratio loses to rounding: the raw dividend times one less the
/// raw ratio times the raw divisor.
pub open spec fn ratio_error(a: Fixed, b: Fixed) -> int {
    a@ * ONE - (a / b)@ * b@
}

/// A ratio with a positive divisor that is no smaller than the dividend
/// in magnitude loses less than the divisor to rounding.
pub proof fn lemma_ratio_rounding(a: Fixed, b: Fixed)
    requires
        b@ > 0,
        magnitude(a@) <= b@,
    ensures
        -b@ < ratio_error(a, b) < b@,
        magnitude((a / b)@) <= ONE,
{
    let x = magnitude(a@);
    let m = b@;
    let n = x * ONE;
    assert(magnitude(a@ * ONE) == n && 0 <= n <= m * ONE && ((a@ * ONE < 0) == (a@ < 0)) && ((a@
        < 0) ==> a@ * ONE == -n) && ((a@ >= 0) ==> a@ * ONE == n)) by (nonlinear_arith)
        requires
            x == magnitude(a@),
            n == x * ONE,
            x <= m,
            ONE == 4_294_967_296,
    ;
    lemma_fundamental_div_mod(n, m);
    lemma_mod_bound(n, m);
    let q = n / m;
    assert(q * m == n - n % m) by (nonlinear_arith)
        requires
            n == m * q + n % m,
    ;
    assert(0 <= q <= ONE) by (nonlinear_arith)
        requires
            q * m == n - n % m,
            0 <= n % m < m,
            0 <= n <= m * ONE,
            m > 0,
    ;
    if a@ < 0 {
        assert((a / b)@ == -q);
        assert((-q) * m == -(q * m)) by (nonlinear_arith);
    } else {
        assert((a / b)@ == q);
    }
}

/// The range of a product of two numbers whose magnitudes lie in given
/// ranges, and its sign.
pub proof fn lemma_product_range(a: Fixed, b: Fixed, alo: int, ahi: int, blo: int, bhi: int)
    requires
        0 <= alo <= magnitude(a@) <= ahi <= PRODUCT_BOUND,
        0 <= blo <= magnitude(b@) <= bhi <= PRODUCT_BOUND,
    ensures
        (alo * blo) / 4_294_967_296 <= magnitude((a * b)@) <= (ahi * bhi) / 4_294_967_296,
        (a@ >= 0 && b@ >= 0) || (a@ <= 0 && b@ <= 0) ==> (a * b)@ >= 0,
        (a@ >= 0 && b@ <= 0) || (a@ <= 0 && b@ >= 0) ==> (a * b)@ <= 0,
{
    lemma_product_rounding(a, b);
    let x = magnitude(a@);
    let y = magnitude(b@);
    let n = x * y;
    assert(magnitude(a@ * b@) == n && alo * blo <= n <= ahi * bhi && ((a@ >= 0 && b@ >= 0) || (a@
        <= 0 && b@ <= 0) ==> a@ * b@ >= 0) && ((a@ >= 0 && b@ <= 0) || (a@ <= 0 && b@ >= 0) ==> a@
        * b@ <= 0)) by (nonlinear_arith)
        requires
            x == magnitude(a@),
            y == magnitude(b@),
            n == x * y,
            0 <= alo <= x <= ahi,
            0 <= blo <= y <= bhi,
    ;
    lemma_div_is_ordered(alo * blo, n, 4_294_967_296);
    lemma_div_is_ordered(n, ahi * bhi, 4_294_967_296);
    assert(n <= 0x1000_0000_0000_0000_0000_0000) by (nonlinear_arith)
        requires
            n == x * y,
            0 <= x <= 0x4000_0000_0000,
            0 <= y <= 0x4000_0000_0000,
    ;
    lemma_div_is_ordered(n, 0x1000_0000_0000_0000_0000_0000, 4_294_967_296);
    lemma_div_is_ordered(0, n, 4_294_967_296);
    assert(0x1000_0000_0000_0000_0000_0000int / 4_294_967_296 == 0x1000_0000_0000_0000);
    assert(0int / 4_294_967_296 == 0);
}

/// The largest raw magnitude of a dividend for which `lemma_ratio_range`
/// holds: `2^30`.
pub const DIVIDEND_BOUND: i64 = 0x4000_0000;

/// The range of a ratio of a number whose magnitude lies in a given range
/// and a positive divisor in a given range, and its sign.
pub proof fn lemma_ratio_range(a: Fixed, b: Fixed, alo: int, ahi: int, blo: int, bhi: int)
    requires
        0 <= alo <= magnitude(a@) <= ahi <= DIVIDEND_BOUND,
        0 < blo <= b@ <= bhi,
    ensures
        (alo * 4_294_967_296) / bhi <= magnitude((a / b)@) <= (ahi * 4_294_967_296) / blo,
        a@ >= 0 ==> (a / b)@ >= 0,
        a@ <= 0 ==> (a / b)@ <= 0,
{
    let x = magnitude(a@);
    let n = x * 4_294_967_296;
    assert(magnitude(a@ * ONE) == n && ((a@ * ONE < 0) == (a@ < 0))) by (nonlinear_arith)
        requires
            x == magnitude(a@),
            n == x * 4_294_967_296,
            ONE == 4_294_967_296,
    ;
    let q = n / b@;
    lemma_div_is_ordered(alo * 4_294_967_296, n, bhi);
    lemma_div_is_ordered_by_denominator(n, b@, bhi);
    lemma_div_is_ordered(n, ahi * 4_294_967_296, blo);
    lemma_div_is_ordered_by_denominator(n, blo, b@);
    lemma_div_is_ordered_by_denominator(n, 1, b@);
    lemma_div_is_ordered(0, n, b@);
    assert(0int / b@ == 0) by (nonlinear_arith)
        requires
            b@ > 0,
    ;
    assert(n / 1 == n);
}

} // verus!
