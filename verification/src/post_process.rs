//! Post-processing: maps from radiance to displayable colour.
//!
//! A post-processor maps one colour to another. Stages are chained by
//! putting them in a tuple of two to seven; the stages of a tuple are
//! applied from left to right.

use crate::fixed::lemma_nought_and_one;
use crate::fixed::lemma_product_range;
use crate::fixed::lemma_ratio_range;
use crate::fixed::Fixed;
use crate::fixed::ONE;
use crate::vec::Vec3;
use vstd::prelude::*;

verus! {

/// A map from colours to colours.
pub trait PostProcessor {
    /// The colour that `pixel` is mapped to.
    spec fn processed(&self, pixel: Vec3) -> Vec3;

    /// Maps one colour.
    fn process_pixel(&self, pixel: Vec3) -> (r: Vec3)
        ensures
            r == self.processed(pixel),
    ;
}

/// Multiplies every channel by a fixed gain.
#[derive(Clone, Copy, Debug)]
pub struct AdjustExposure(pub Fixed);

impl PostProcessor for AdjustExposure {
    open spec fn processed(&self, pixel: Vec3) -> Vec3 {
        pixel.scaled_by(self.0)
    }

    fn process_pixel(&self, pixel: Vec3) -> (r: Vec3) {
        pixel * self.0
    }
}

/// The filmic tone curve fitted to the ACES reference transform: a colour
/// matrix, a rational curve on each channel, the inverse colour matrix, and
/// a clamp into `[0, 1]`.
#[derive(Clone, Copy, Debug)]
pub struct AcesFilmicCurve;

/// The vector of three decimal fractions with five digits after the point.
pub open spec fn spec_row(a: int, b: int, c: int) -> Vec3 {
    Vec3 {
        x: Fixed::spec_ratio(a, 100_000),
        y: Fixed::spec_ratio(b, 100_000),
        z: Fixed::spec_ratio(c, 100_000),
    }
}

/// The colour matrix that leads into the curve.
pub open spec fn aces_input(p: Vec3) -> Vec3 {
    Vec3 {
        x: (p * spec_row(59_719, 35_458, 4_823)).spec_sum(),
        y: (p * spec_row(7_600, 90_834, 1_566)).spec_sum(),
        z: (p * spec_row(2_840, 13_383, 83_777)).spec_sum(),
    }
}

/// The rational curve, channel by channel:
/// `(p (p + 0.0245786) - 0.000090537) / (p (0.983729 p + 0.4329510) + 0.238081)`.
pub open spec fn aces_curve(p: Vec3) -> Vec3 {
    let a = p * (p + Vec3::splat(Fixed::spec_ratio(245_786, 10_000_000))) - Vec3::splat(
        Fixed::spec_ratio(90_537, 1_000_000_000),
    );
    let b = p * (p.scaled_by(Fixed::spec_ratio(983_729, 1_000_000)) + Vec3::splat(
        Fixed::spec_ratio(4_329_510, 10_000_000),
    )) + Vec3::splat(Fixed::spec_ratio(238_081, 1_000_000));
    a / b
}

/// The colour matrix that leads out of the curve.
pub open spec fn aces_output(p: Vec3) -> Vec3 {
    Vec3 {
        x: (p * spec_row(160_475, -53_108, -7_367)).spec_sum(),
        y: (p * spec_row(-10_208, 110_813, -605)).spec_sum(),
        z: (p * spec_row(-327, -7_276, 107_602)).spec_sum(),
    }
}

/// The whole tone curve.
pub open spec fn aces(p: Vec3) -> Vec3 {
    aces_output(aces_curve(aces_input(p))).spec_saturated()
}

/// The vector of three decimal fractions with five digits after the point.
fn row(a: i64, b: i64, c: i64) -> (r: Vec3)
    ensures
        r == spec_row(a as int, b as int, c as int),
{
    Vec3 { x: Fixed::ratio(a, 100_000), y: Fixed::ratio(b, 100_000), z: Fixed::ratio(c, 100_000) }
}

impl PostProcessor for AcesFilmicCurve {
    open spec fn processed(&self, pixel: Vec3) -> Vec3 {
        aces(pixel)
    }

    fn process_pixel(&self, pixel: Vec3) -> (r: Vec3)
        ensures
            0 <= r.x@ <= ONE,
            0 <= r.y@ <= ONE,
            0 <= r.z@ <= ONE,
    {
        let pixel = Vec3 {
            x: (pixel * row(59_719, 35_458, 4_823)).sum(),
            y: (pixel * row(7_600, 90_834, 1_566)).sum(),
            z: (pixel * row(2_840, 13_383, 83_777)).sum(),
        };
        let a = pixel * (pixel + Fixed::ratio(245_786, 10_000_000)) - Fixed::ratio(
            90_537,
            1_000_000_000,
        );
        let b = pixel * (pixel * Fixed::ratio(983_729, 1_000_000) + Fixed::ratio(
            4_329_510,
            10_000_000,
        )) + Fixed::ratio(238_081, 1_000_000);
        let pixel = a / b;
        let pixel = Vec3 {
            x: (pixel * row(160_475, -53_108, -7_367)).sum(),
            y: (pixel * row(-10_208, 110_813, -605)).sum(),
            z: (pixel * row(-327, -7_276, 107_602)).sum(),
        };
        pixel.saturated()
    }
}

/// The empty chain leaves every colour as it is.
impl PostProcessor for () {
    open spec fn processed(&self, pixel: Vec3) -> Vec3 {
        pixel
    }

    fn process_pixel(&self, pixel: Vec3) -> (r: Vec3) {
        pixel
    }
}

impl<A: PostProcessor, B: PostProcessor> PostProcessor for (A, B) {
    open spec fn processed(&self, pixel: Vec3) -> Vec3 {
        self.1.processed(self.0.processed(pixel))
    }

    fn process_pixel(&self, pixel: Vec3) -> (r: Vec3) {
        let pixel = self.0.process_pixel(pixel);
        let pixel = self.1.process_pixel(pixel);
        pixel
    }
}

impl<A: PostProcessor, B: PostProcessor, C: PostProcessor> PostProcessor for (A, B, C) {
    open spec fn processed(&self, pixel: Vec3) -> Vec3 {
        self.2.processed(self.1.processed(self.0.processed(pixel)))
    }

    fn process_pixel(&self, pixel: Vec3) -> (r: Vec3) {
        let pixel = self.0.process_pixel(pixel);
        let pixel = self.1.process_pixel(pixel);
        let pixel = self.2.process_pixel(pixel);
        pixel
    }
}

impl<A: PostProcessor, B: PostProcessor, C: PostProcessor, D: PostProcessor> PostProcessor for (A, B, C, D) {
    open spec fn processed(&self, pixel: Vec3) -> Vec3 {
        self.3.processed(self.2.processed(self.1.processed(self.0.processed(pixel))))
    }

    fn process_pixel(&self, pixel: Vec3) -> (r: Vec3) {
        let pixel = self.0.process_pixel(pixel);
        let pixel = self.1.process_pixel(pixel);
        let pixel = self.2.process_pixel(pixel);
        let pixel = self.3.process_pixel(pixel);
        pixel
    }
}

impl<A: PostProcessor, B: PostProcessor, C: PostProcessor, D: PostProcessor, E: PostProcessor> PostProcessor for (A, B, C, D, E) {
    open spec fn processed(&self, pixel: Vec3) -> Vec3 {
        self.4.processed(self.3.processed(self.2.processed(self.1.processed(self.0.processed(pixel)))))
    }

    fn process_pixel(&self, pixel: Vec3) -> (r: Vec3) {
        let pixel = self.0.process_pixel(pixel);
        let pixel = self.1.process_pixel(pixel);
        let pixel = self.2.process_pixel(pixel);
        let pixel = self.3.process_pixel(pixel);
        let pixel = self.4.process_pixel(pixel);
        pixel
    }
}

impl<A: PostProcessor, B: PostProcessor, C: PostProcessor, D: PostProcessor, E: PostProcessor, F: PostProcessor> PostProcessor for (A, B, C, D, E, F) {
    open spec fn processed(&self, pixel: Vec3) -> Vec3 {
        self.5.processed(self.4.processed(self.3.processed(self.2.processed(self.1.processed(self.0.processed(pixel))))))
    }

    fn process_pixel(&self, pixel: Vec3) -> (r: Vec3) {
        let pixel = self.0.process_pixel(pixel);
        let pixel = self.1.process_pixel(pixel);
        let pixel = self.2.process_pixel(pixel);
        let pixel = self.3.process_pixel(pixel);
        let pixel = self.4.process_pixel(pixel);
        let pixel = self.5.process_pixel(pixel);
        pixel
    }
}

impl<A: PostProcessor, B: PostProcessor, C: PostProcessor, D: PostProcessor, E: PostProcessor, F: PostProcessor, G: PostProcessor> PostProcessor for (A, B, C, D, E, F, G) {
    open spec fn processed(&self, pixel: Vec3) -> Vec3 {
        self.6.processed(self.5.processed(self.4.processed(self.3.processed(self.2.processed(self.1.processed(self.0.processed(pixel)))))))
    }

    fn process_pixel(&self, pixel: Vec3) -> (r: Vec3) {
        let pixel = self.0.process_pixel(pixel);
        let pixel = self.1.process_pixel(pixel);
        let pixel = self.2.process_pixel(pixel);
        let pixel = self.3.process_pixel(pixel);
        let pixel = self.4.process_pixel(pixel);
        let pixel = self.5.process_pixel(pixel);
        let pixel = self.6.process_pixel(pixel);
        pixel
    }
}

/// The tone curve maps black to black.
pub proof fn lemma_aces_black()
    ensures
        AcesFilmicCurve.processed(Vec3::whole(0, 0, 0)) == Vec3::whole(0, 0, 0),
{
    lemma_nought_and_one();
    lemma_aces_dark(Vec3::whole(0, 0, 0));
}

/// The tone curve maps every colour, in range or not, into `[0, 1]` on
/// every channel.
pub proof fn lemma_aces_clamped(pixel: Vec3)
    ensures
        0 <= AcesFilmicCurve.processed(pixel).x@ <= ONE,
        0 <= AcesFilmicCurve.processed(pixel).y@ <= ONE,
        0 <= AcesFilmicCurve.processed(pixel).z@ <= ONE,
{
}

/// A chain of two applies its first stage, then its second.
pub proof fn lemma_chain_of_two<A: PostProcessor, B: PostProcessor>(a: A, b: B, pixel: Vec3)
    ensures
        (a, b).processed(pixel) == b.processed(a.processed(pixel)),
{
}

/// A chain of three applies its stages from left to right, and it does not
/// matter how the stages are grouped: a chain of a chain of two and a third
/// stage, and a chain of a first stage and a chain of two, map every colour
/// as the flat chain of three does.
pub proof fn lemma_chain_of_three<A: PostProcessor, B: PostProcessor, C: PostProcessor>(
    a: A,
    b: B,
    c: C,
    pixel: Vec3,
)
    ensures
        (a, b, c).processed(pixel) == c.processed(b.processed(a.processed(pixel))),
        ((a, b), c).processed(pixel) == (a, b, c).processed(pixel),
        (a, (b, c)).processed(pixel) == (a, b, c).processed(pixel),
{
}

/// The raw values of the constants of the tone curve.
pub proof fn lemma_aces_constants()
    ensures
        Fixed::spec_ratio(245_786, 10_000_000)@ == 105_564_283,
        Fixed::spec_ratio(90_537, 1_000_000_000)@ == 388_853,
        Fixed::spec_ratio(983_729, 1_000_000)@ == 4_225_083_883,
        Fixed::spec_ratio(4_329_510, 10_000_000)@ == 1_859_510_385,
        Fixed::spec_ratio(238_081, 1_000_000)@ == 1_022_550_108,
        spec_row(59_719, 35_458, 4_823).x@ == 2_564_911_519,
        spec_row(59_719, 35_458, 4_823).y@ == 1_522_909_503,
        spec_row(59_719, 35_458, 4_823).z@ == 207_146_272,
        spec_row(7_600, 90_834, 1_566).x@ == 326_417_514,
        spec_row(7_600, 90_834, 1_566).y@ == 3_901_290_593,
        spec_row(7_600, 90_834, 1_566).z@ == 67_259_187,
        spec_row(2_840, 13_383, 83_777).x@ == 121_977_071,
        spec_row(2_840, 13_383, 83_777).y@ == 574_795_473,
        spec_row(2_840, 13_383, 83_777).z@ == 3_598_194_751,
        spec_row(160_475, -53_108, -7_367).x@ == 6_892_348_768,
        spec_row(160_475, -53_108, -7_367).y@ == -2_280_971_231,
        spec_row(160_475, -53_108, -7_367).z@ == -316_410_240,
        spec_row(-10_208, 110_813, -605).x@ == -438_430_261,
        spec_row(-10_208, 110_813, -605).y@ == 4_759_382_109,
        spec_row(-10_208, 110_813, -605).z@ == -25_984_552,
        spec_row(-327, -7_276, 107_602).x@ == -14_044_543,
        spec_row(-327, -7_276, 107_602).y@ == -312_501_820,
        spec_row(-327, -7_276, 107_602).z@ == 4_621_470_709,
{
    assert(245_786int * ONE == 1_055_642_831_814_656);
    assert(1_055_642_831_814_656int / 10_000_000int == 105_564_283);
    assert(Fixed::spec_ratio(245_786, 10_000_000)@ == 105_564_283);
    assert(90_537int * ONE == 388_853_454_077_952);
    assert(388_853_454_077_952int / 1_000_000_000int == 388_853);
    assert(Fixed::spec_ratio(90_537, 1_000_000_000)@ == 388_853);
    assert(983_729int * ONE == 4_225_083_883_126_784);
    assert(4_225_083_883_126_784int / 1_000_000int == 4_225_083_883);
    assert(Fixed::spec_ratio(983_729, 1_000_000)@ == 4_225_083_883);
    assert(4_329_510int * ONE == 18_595_103_857_704_960);
    assert(18_595_103_857_704_960int / 10_000_000int == 1_859_510_385);
    assert(Fixed::spec_ratio(4_329_510, 10_000_000)@ == 1_859_510_385);
    assert(238_081int * ONE == 1_022_550_108_798_976);
    assert(1_022_550_108_798_976int / 1_000_000int == 1_022_550_108);
    assert(Fixed::spec_ratio(238_081, 1_000_000)@ == 1_022_550_108);
    assert(59_719int * ONE == 256_491_151_949_824);
    assert(256_491_151_949_824int / 100_000int == 2_564_911_519);
    assert(Fixed::spec_ratio(59_719, 100_000)@ == 2_564_911_519);
    assert(35_458int * ONE == 152_290_950_381_568);
    assert(152_290_950_381_568int / 100_000int == 1_522_909_503);
    assert(Fixed::spec_ratio(35_458, 100_000)@ == 1_522_909_503);
    assert(4_823int * ONE == 20_714_627_268_608);
    assert(20_714_627_268_608int / 100_000int == 207_146_272);
    assert(Fixed::spec_ratio(4_823, 100_000)@ == 207_146_272);
    assert(7_600int * ONE == 32_641_751_449_600);
    assert(32_641_751_449_600int / 100_000int == 326_417_514);
    assert(Fixed::spec_ratio(7_600, 100_000)@ == 326_417_514);
    assert(90_834int * ONE == 390_129_059_364_864);
    assert(390_129_059_364_864int / 100_000int == 3_901_290_593);
    assert(Fixed::spec_ratio(90_834, 100_000)@ == 3_901_290_593);
    assert(1_566int * ONE == 6_725_918_785_536);
    assert(6_725_918_785_536int / 100_000int == 67_259_187);
    assert(Fixed::spec_ratio(1_566, 100_000)@ == 67_259_187);
    assert(2_840int * ONE == 12_197_707_120_640);
    assert(12_197_707_120_640int / 100_000int == 121_977_071);
    assert(Fixed::spec_ratio(2_840, 100_000)@ == 121_977_071);
    assert(13_383int * ONE == 57_479_547_322_368);
    assert(57_479_547_322_368int / 100_000int == 574_795_473);
    assert(Fixed::spec_ratio(13_383, 100_000)@ == 574_795_473);
    assert(83_777int * ONE == 359_819_475_156_992);
    assert(359_819_475_156_992int / 100_000int == 3_598_194_751);
    assert(Fixed::spec_ratio(83_777, 100_000)@ == 3_598_194_751);
    assert(160_475int * ONE == 689_234_876_825_600);
    assert(689_234_876_825_600int / 100_000int == 6_892_348_768);
    assert(Fixed::spec_ratio(160_475, 100_000)@ == 6_892_348_768);
    assert((-53_108int) * ONE == -228_097_123_155_968);
    assert(228_097_123_155_968int / 100_000int == 2_280_971_231);
    assert(Fixed::spec_ratio(-53_108, 100_000)@ == -2_280_971_231);
    assert((-7_367int) * ONE == -31_641_024_069_632);
    assert(31_641_024_069_632int / 100_000int == 316_410_240);
    assert(Fixed::spec_ratio(-7_367, 100_000)@ == -316_410_240);
    assert((-10_208int) * ONE == -43_843_026_157_568);
    assert(43_843_026_157_568int / 100_000int == 438_430_261);
    assert(Fixed::spec_ratio(-10_208, 100_000)@ == -438_430_261);
    assert(110_813int * ONE == 475_938_210_971_648);
    assert(475_938_210_971_648int / 100_000int == 4_759_382_109);
    assert(Fixed::spec_ratio(110_813, 100_000)@ == 4_759_382_109);
    assert((-605int) * ONE == -2_598_455_214_080);
    assert(2_598_455_214_080int / 100_000int == 25_984_552);
    assert(Fixed::spec_ratio(-605, 100_000)@ == -25_984_552);
    assert((-327int) * ONE == -1_404_454_305_792);
    assert(1_404_454_305_792int / 100_000int == 14_044_543);
    assert(Fixed::spec_ratio(-327, 100_000)@ == -14_044_543);
    assert((-7_276int) * ONE == -31_250_182_045_696);
    assert(31_250_182_045_696int / 100_000int == 312_501_820);
    assert(Fixed::spec_ratio(-7_276, 100_000)@ == -312_501_820);
    assert(107_602int * ONE == 462_147_070_984_192);
    assert(462_147_070_984_192int / 100_000int == 4_621_470_709);
    assert(Fixed::spec_ratio(107_602, 100_000)@ == 4_621_470_709);
}

/// The raw value of the brightest input that `lemma_aces_dark` speaks
/// of: one thousandth.
pub const DARK: i64 = 4_294_967;

/// The rational curve on one channel.
pub open spec fn curve_channel(r: Fixed) -> Fixed {
    (r * (r + Fixed::spec_ratio(245_786, 10_000_000)) - Fixed::spec_ratio(90_537, 1_000_000_000))
        / (r * (r * Fixed::spec_ratio(983_729, 1_000_000) + Fixed::spec_ratio(
        4_329_510,
        10_000_000,
    )) + Fixed::spec_ratio(238_081, 1_000_000))
}

/// The rational curve maps every dark channel to a little below nought.
proof fn lemma_curve_dark(r: Fixed)
    requires
        0 <= r@ <= DARK,
    ensures
        -1_633_280 <= curve_channel(r)@ <= -1_169_712,
{
    lemma_aces_constants();
    let c1 = Fixed::spec_ratio(245_786, 10_000_000);
    let c2 = Fixed::spec_ratio(90_537, 1_000_000_000);
    let c3 = Fixed::spec_ratio(983_729, 1_000_000);
    let c4 = Fixed::spec_ratio(4_329_510, 10_000_000);
    let c5 = Fixed::spec_ratio(238_081, 1_000_000);
    let t1 = r + c1;
    lemma_product_range(r, t1, 0, 4_294_967, 105_564_283, 109_859_250);
    assert((4_294_967int * 109_859_250int) / 4_294_967_296 == 109_859);
    let a = r * t1 - c2;
    assert(-388_853 <= a@ <= -278_994);
    lemma_product_range(r, c3, 0, 4_294_967, 4_225_083_883, 4_225_083_883);
    assert((4_294_967int * 4_225_083_883int) / 4_294_967_296 == 4_225_083);
    let t2 = r * c3 + c4;
    lemma_product_range(r, t2, 0, 4_294_967, 1_859_510_385, 1_863_735_468);
    assert((4_294_967int * 1_863_735_468int) / 4_294_967_296 == 1_863_735);
    let b = r * t2 + c5;
    assert(1_022_550_108 <= b@ <= 1_024_413_843);
    lemma_ratio_range(a, b, 278_994, 388_853, 1_022_550_108, 1_024_413_843);
    assert((278_994int * 4_294_967_296) / 1_024_413_843int == 1_169_712);
    assert((388_853int * 4_294_967_296) / 1_022_550_108int == 1_633_280);
    assert(curve_channel(r) == a / b);
}

/// The colour matrix that leads into the curve keeps a dark colour dark.
proof fn lemma_input_dark(p: Vec3)
    requires
        0 <= p.x@ <= DARK,
        0 <= p.y@ <= DARK,
        0 <= p.z@ <= DARK,
    ensures
        0 <= aces_input(p).x@ <= DARK,
        0 <= aces_input(p).y@ <= DARK,
        0 <= aces_input(p).z@ <= DARK,
{
    lemma_aces_constants();
    lemma_product_range(p.x, spec_row(59_719, 35_458, 4_823).x, 0, 4_294_967, 2_564_911_519, 2_564_911_519);
    assert((4_294_967int * 2_564_911_519int) / 4_294_967_296 == 2_564_911);
    lemma_product_range(p.y, spec_row(59_719, 35_458, 4_823).y, 0, 4_294_967, 1_522_909_503, 1_522_909_503);
    assert((4_294_967int * 1_522_909_503int) / 4_294_967_296 == 1_522_909);
    lemma_product_range(p.z, spec_row(59_719, 35_458, 4_823).z, 0, 4_294_967, 207_146_272, 207_146_272);
    assert((4_294_967int * 207_146_272int) / 4_294_967_296 == 207_146);
    assert(0 <= aces_input(p).x@ <= 4_294_966);
    lemma_product_range(p.x, spec_row(7_600, 90_834, 1_566).x, 0, 4_294_967, 326_417_514, 326_417_514);
    assert((4_294_967int * 326_417_514int) / 4_294_967_296 == 326_417);
    lemma_product_range(p.y, spec_row(7_600, 90_834, 1_566).y, 0, 4_294_967, 3_901_290_593, 3_901_290_593);
    assert((4_294_967int * 3_901_290_593int) / 4_294_967_296 == 3_901_290);
    lemma_product_range(p.z, spec_row(7_600, 90_834, 1_566).z, 0, 4_294_967, 67_259_187, 67_259_187);
    assert((4_294_967int * 67_259_187int) / 4_294_967_296 == 67_259);
    assert(0 <= aces_input(p).y@ <= 4_294_966);
    lemma_product_range(p.x, spec_row(2_840, 13_383, 83_777).x, 0, 4_294_967, 121_977_071, 121_977_071);
    assert((4_294_967int * 121_977_071int) / 4_294_967_296 == 121_977);
    lemma_product_range(p.y, spec_row(2_840, 13_383, 83_777).y, 0, 4_294_967, 574_795_473, 574_795_473);
    assert((4_294_967int * 574_795_473int) / 4_294_967_296 == 574_795);
    lemma_product_range(p.z, spec_row(2_840, 13_383, 83_777).z, 0, 4_294_967, 3_598_194_751, 3_598_194_751);
    assert((4_294_967int * 3_598_194_751int) / 4_294_967_296 == 3_598_194);
    assert(0 <= aces_input(p).z@ <= 4_294_966);
}

/// The colour matrix that leads out of the curve keeps a colour below
/// nought whose channels are all a little below nought.
proof fn lemma_output_dark(q: Vec3)
    requires
        -1_633_280 <= q.x@ <= -1_169_712,
        -1_633_280 <= q.y@ <= -1_169_712,
        -1_633_280 <= q.z@ <= -1_169_712,
    ensures
        aces_output(q).x@ < 0,
        aces_output(q).y@ < 0,
        aces_output(q).z@ < 0,
{
    lemma_aces_constants();
    lemma_product_range(q.x, spec_row(160_475, -53_108, -7_367).x, 1_169_712, 1_633_280, 6_892_348_768, 6_892_348_768);
    assert((1_169_712int * 6_892_348_768int) / 4_294_967_296 == 1_877_095);
    assert((1_633_280int * 6_892_348_768int) / 4_294_967_296 == 2_621_006);
    lemma_product_range(q.y, spec_row(160_475, -53_108, -7_367).y, 1_169_712, 1_633_280, 2_280_971_231, 2_280_971_231);
    assert((1_169_712int * 2_280_971_231int) / 4_294_967_296 == 621_210);
    assert((1_633_280int * 2_280_971_231int) / 4_294_967_296 == 867_402);
    lemma_product_range(q.z, spec_row(160_475, -53_108, -7_367).z, 1_169_712, 1_633_280, 316_410_240, 316_410_240);
    assert((1_169_712int * 316_410_240int) / 4_294_967_296 == 86_172);
    assert((1_633_280int * 316_410_240int) / 4_294_967_296 == 120_323);
    assert(aces_output(q).x@ <= -889_370);
    lemma_product_range(q.x, spec_row(-10_208, 110_813, -605).x, 1_169_712, 1_633_280, 438_430_261, 438_430_261);
    assert((1_169_712int * 438_430_261int) / 4_294_967_296 == 119_404);
    assert((1_633_280int * 438_430_261int) / 4_294_967_296 == 166_725);
    lemma_product_range(q.y, spec_row(-10_208, 110_813, -605).y, 1_169_712, 1_633_280, 4_759_382_109, 4_759_382_109);
    assert((1_169_712int * 4_759_382_109int) / 4_294_967_296 == 1_296_192);
    assert((1_633_280int * 4_759_382_109int) / 4_294_967_296 == 1_809_886);
    lemma_product_range(q.z, spec_row(-10_208, 110_813, -605).z, 1_169_712, 1_633_280, 25_984_552, 25_984_552);
    assert((1_169_712int * 25_984_552int) / 4_294_967_296 == 7_076);
    assert((1_633_280int * 25_984_552int) / 4_294_967_296 == 9_881);
    assert(aces_output(q).y@ <= -1_119_586);
    lemma_product_range(q.x, spec_row(-327, -7_276, 107_602).x, 1_169_712, 1_633_280, 14_044_543, 14_044_543);
    assert((1_169_712int * 14_044_543int) / 4_294_967_296 == 3_824);
    assert((1_633_280int * 14_044_543int) / 4_294_967_296 == 5_340);
    lemma_product_range(q.y, spec_row(-327, -7_276, 107_602).y, 1_169_712, 1_633_280, 312_501_820, 312_501_820);
    assert((1_169_712int * 312_501_820int) / 4_294_967_296 == 85_108);
    assert((1_633_280int * 312_501_820int) / 4_294_967_296 == 118_837);
    lemma_product_range(q.z, spec_row(-327, -7_276, 107_602).z, 1_169_712, 1_633_280, 4_621_470_709, 4_621_470_709);
    assert((1_169_712int * 4_621_470_709int) / 4_294_967_296 == 1_258_633);
    assert((1_633_280int * 4_621_470_709int) / 4_294_967_296 == 1_757_441);
    assert(aces_output(q).z@ <= -1_134_456);
}

/// The tone curve is close to the identity for very dark colours: it maps
/// every colour with all channels between nought and one thousandth to
/// black, so that no channel moves by more than one thousandth.
pub proof fn lemma_aces_dark(pixel: Vec3)
    requires
        0 <= pixel.x@ <= DARK,
        0 <= pixel.y@ <= DARK,
        0 <= pixel.z@ <= DARK,
    ensures
        AcesFilmicCurve.processed(pixel) == Vec3::whole(0, 0, 0),
        0 <= pixel.x@ - AcesFilmicCurve.processed(pixel).x@ <= DARK,
        0 <= pixel.y@ - AcesFilmicCurve.processed(pixel).y@ <= DARK,
        0 <= pixel.z@ - AcesFilmicCurve.processed(pixel).z@ <= DARK,
{
    lemma_input_dark(pixel);
    let inner = aces_input(pixel);
    lemma_curve_dark(inner.x);
    lemma_curve_dark(inner.y);
    lemma_curve_dark(inner.z);
    let curved = aces_curve(inner);
    assert(curved.x == curve_channel(inner.x));
    assert(curved.y == curve_channel(inner.y));
    assert(curved.z == curve_channel(inner.z));
    lemma_output_dark(curved);
    lemma_nought_and_one();
}

} // verus!
