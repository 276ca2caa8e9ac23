//! Distance to an object from the height of its box.
//!
//! The height is first brought to the scale of a cone by a factor that
//! depends on the class. Distance in centimetres is then a cubic polynomial
//! of that height in pixels, rounded to the nearest centimetre.

use vstd::prelude::*;
use crate::labels::ClassLabel;
use crate::rounding::{div_round, round_div};

verus! {

/// Centimetres, the unit of every distance here, in one metre.
pub const CM_IN_METER: i64 = 100;

/// The largest magnitude of a box height: twice the coordinate range.
pub const MAX_HEIGHT: i32 = 2 * crate::geometry::MAX_COORD;

/// Cubic coefficient, in units of 10^-19.
pub const COEFF_A: i128 = -586_230_652_281_417;

/// Quadratic coefficient, in units of 10^-15.
pub const COEFF_B: i128 = 41_512_419_539_938;

/// Linear coefficient, in units of 10^-14.
pub const COEFF_C: i128 = -970_395_960_666_584;

/// Constant coefficient, in units of 10^-12.
pub const COEFF_D: i128 = 877_331_591_326_026;

/// Units of normalised height in one pixel: sixteenths of a pixel times
/// tenths of a factor.
pub const HEIGHT_UNITS: i128 = 160;

/// The factor, in tenths, by which a height of the class is multiplied; none
/// for a class whose objects the distance model does not cover.
pub open spec fn height_factor_of(label: ClassLabel) -> Option<int> {
    match label {
        ClassLabel::Cone => Some(10),
        ClassLabel::Pylon => Some(10),
        ClassLabel::Bucket => Some(23),
        ClassLabel::Hen => Some(20),
        ClassLabel::Nothing => Some(0),
        ClassLabel::Person => None,
        ClassLabel::Roktrack => None,
    }
}

/// The polynomial at `n / 160` pixels, as a multiple of
/// `1 / distance_denominator()` centimetres.
pub open spec fn distance_numerator(n: int) -> int {
    COEFF_A * (n * n * n) + COEFF_B * 10_000 * HEIGHT_UNITS * (n * n) + COEFF_C * 100_000 * (
    HEIGHT_UNITS * HEIGHT_UNITS) * n + COEFF_D * 10_000_000 * (HEIGHT_UNITS * HEIGHT_UNITS
        * HEIGHT_UNITS)
}

/// The common denominator of the polynomial's terms: 10^19 times the cube of
/// the height unit.
pub open spec fn distance_denominator() -> int {
    10_000_000_000_000_000_000 * (HEIGHT_UNITS * HEIGHT_UNITS * HEIGHT_UNITS)
}

/// Distance in centimetres for a height of `factor` tenths times
/// `pixel_height` sixteenths of a pixel.
pub open spec fn distance_at(pixel_height: int, factor: int) -> int {
    round_div(distance_numerator(pixel_height * factor), distance_denominator())
}

/// Distance in centimetres to an object of class `label` whose box is
/// `pixel_height` sixteenths of a pixel high.
pub open spec fn distance_cm(pixel_height: int, label: ClassLabel) -> int
    recommends
        height_factor_of(label) is Some,
{
    distance_at(pixel_height, height_factor_of(label).unwrap())
}

/// The factor of a class in tenths, if the distance model covers the class.
pub fn height_factor(label: ClassLabel) -> (r: Option<u8>)
    ensures
        r is Some <==> height_factor_of(label) is Some,
        r matches Some(f) ==> f == height_factor_of(label).unwrap() && f <= 23,
{
    match label {
        ClassLabel::Cone => Some(10),
        ClassLabel::Pylon => Some(10),
        ClassLabel::Bucket => Some(23),
        ClassLabel::Hen => Some(20),
        ClassLabel::Nothing => Some(0),
        ClassLabel::Person => None,
        ClassLabel::Roktrack => None,
    }
}

fn distance_with_factor(pixel_height: i32, factor: u8) -> (cm: i64)
    requires
        -MAX_HEIGHT <= pixel_height <= MAX_HEIGHT,
        factor <= 23,
    ensures
        cm == distance_at(pixel_height as int, factor as int),
{
    assert(-48_234_496 <= pixel_height * factor <= 48_234_496) by (nonlinear_arith)
        requires
            -2_097_152 <= pixel_height <= 2_097_152,
            0 <= factor <= 23,
    ;
    let n: i128 = (pixel_height as i128) * (factor as i128);
    assert(0 <= n * n <= 48_234_496 * 48_234_496) by (nonlinear_arith)
        requires
            -48_234_496 <= n <= 48_234_496,
    ;
    let square: i128 = n * n;
    assert(-48_234_496 * 48_234_496 * 48_234_496 <= square * n <= 48_234_496 * 48_234_496
        * 48_234_496) by (nonlinear_arith)
        requires
            0 <= square <= 48_234_496 * 48_234_496,
            -48_234_496 <= n <= 48_234_496,
    ;
    let cube: i128 = square * n;
    assert(cube == n * n * n);
    // the four terms over the common denominator
    let cubic: i128 = -586_230_652_281_417 * cube;
    let quadratic: i128 = 66_419_871_263_900_800_000 * square;
    let linear: i128 = -2_484_213_659_306_455_040_000_000 * n;
    let constant: i128 = 35_935_501_980_714_024_960_000_000_000;
    let total: i128 = cubic + quadratic + linear + constant;
    proof {
        lemma_scaled_coefficients();
        assert(COEFF_A * cube == cubic) by (nonlinear_arith)
            requires
                COEFF_A == -586_230_652_281_417,
                cubic == -586_230_652_281_417 * cube,
        ;
        assert(COEFF_B * 10_000 * HEIGHT_UNITS * square == quadratic) by (nonlinear_arith)
            requires
                COEFF_B * 10_000 * HEIGHT_UNITS == 66_419_871_263_900_800_000,
                quadratic == 66_419_871_263_900_800_000 * square,
        ;
        assert(COEFF_C * 100_000 * (HEIGHT_UNITS * HEIGHT_UNITS) * n == linear)
            by (nonlinear_arith)
            requires
                COEFF_C * 100_000 * (HEIGHT_UNITS * HEIGHT_UNITS)
                    == -2_484_213_659_306_455_040_000_000,
                linear == -2_484_213_659_306_455_040_000_000 * n,
        ;
        assert(total == distance_numerator(n as int));
        crate::rounding::lemma_round_div_bound(
            total as int,
            40_960_000_000_000_000_000_000_000,
            10_000_000_000_000,
        );
    }
    let cm: i128 = div_round(total, 40_960_000_000_000_000_000_000_000);
    cm as i64
}

/// The coefficients over the common denominator.
proof fn lemma_scaled_coefficients()
    ensures
        COEFF_B * 10_000 * HEIGHT_UNITS == 66_419_871_263_900_800_000,
        COEFF_C * 100_000 * (HEIGHT_UNITS * HEIGHT_UNITS) == -2_484_213_659_306_455_040_000_000,
        COEFF_D * 10_000_000 * (HEIGHT_UNITS * HEIGHT_UNITS * HEIGHT_UNITS)
            == 35_935_501_980_714_024_960_000_000_000,
        distance_denominator() == 40_960_000_000_000_000_000_000_000,
{
    let b = COEFF_B as int;
    let c = COEFF_C as int;
    let d = COEFF_D as int;
    let u = HEIGHT_UNITS as int;
    assert(b * 10_000 * u == 66_419_871_263_900_800_000) by (nonlinear_arith)
        requires
            b == 41_512_419_539_938,
            u == 160,
    ;
    assert(u * u == 25_600 && u * u * u == 4_096_000) by (nonlinear_arith)
        requires
            u == 160,
    ;
    assert(c * 100_000 * 25_600 == -2_484_213_659_306_455_040_000_000) by (nonlinear_arith)
        requires
            c == -970_395_960_666_584,
    ;
    assert(d * 10_000_000 * 4_096_000 == 35_935_501_980_714_024_960_000_000_000)
        by (nonlinear_arith)
        requires
            d == 877_331_591_326_026,
    ;
}

/// Estimates the distance, in centimetres, to an object of class `label`
/// whose box is `pixel_height` sixteenths of a pixel high.
pub fn estimate_distance(pixel_height: i32, label: ClassLabel) -> (cm: i64)
    requires
        -MAX_HEIGHT <= pixel_height <= MAX_HEIGHT,
        height_factor_of(label) is Some,
    ensures
        cm == distance_cm(pixel_height as int, label),
{
    match height_factor(label) {
        Some(factor) => distance_with_factor(pixel_height, factor),
        None => 0,
    }
}

/// At height zero the distance is the constant coefficient, rounded: 877
/// centimetres, whatever the class.
pub proof fn lemma_distance_at_zero(label: ClassLabel)
    requires
        height_factor_of(label) is Some,
    ensures
        distance_cm(0, label) == 877,
{
    lemma_distance_of_nothing(0);
}

/// Where nothing was detected the height plays no part: the distance is that
/// of height zero.
pub proof fn lemma_distance_of_nothing(pixel_height: int)
    ensures
        distance_cm(pixel_height, ClassLabel::Nothing) == 877,
        distance_at(0, 0) == 877,
{
    lemma_scaled_coefficients();
    assert(pixel_height * 0 == 0);
    assert(0int * 0int * 0int == 0);
    assert(COEFF_A * 0 == 0);
    assert(distance_numerator(0) == 35_935_501_980_714_024_960_000_000_000);
    assert((2 * 35_935_501_980_714_024_960_000_000_000int + 40_960_000_000_000_000_000_000_000)
        / (2 * 40_960_000_000_000_000_000_000_000int) == 877);
}

} // verus!
