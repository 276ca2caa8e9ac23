use cam_detect::estimation::{estimate_distance, height_factor, MAX_HEIGHT};
use cam_detect::labels::ClassLabel;
use cam_detect::rounding::div_round;

#[test]
fn distance_at_height_zero_is_the_constant_term() {
    assert_eq!(estimate_distance(0, ClassLabel::Cone), 877);
    assert_eq!(estimate_distance(0, ClassLabel::Pylon), 877);
    assert_eq!(estimate_distance(0, ClassLabel::Bucket), 877);
    assert_eq!(estimate_distance(0, ClassLabel::Hen), 877);
}

#[test]
fn nothing_is_always_at_the_distance_of_height_zero() {
    for h in [0, 1, 450, 1600, -320, MAX_HEIGHT, -MAX_HEIGHT] {
        assert_eq!(estimate_distance(h, ClassLabel::Nothing), 877);
    }
}

#[test]
fn distance_follows_the_polynomial() {
    // 28.125 px, 100 px and -20 px of cone height
    assert_eq!(estimate_distance(450, ClassLabel::Cone), 636);
    assert_eq!(estimate_distance(1600, ClassLabel::Cone), 263);
    assert_eq!(estimate_distance(-320, ClassLabel::Cone), 1088);
    assert_eq!(estimate_distance(1600, ClassLabel::Pylon), 263);
}

#[test]
fn heights_are_scaled_by_class() {
    // 100 px of bucket count as 230 px, 100 px of hen as 200 px
    assert_eq!(estimate_distance(1600, ClassLabel::Bucket), 128);
    assert_eq!(estimate_distance(1600, ClassLabel::Hen), 128);
    // 50 px of hen are 100 px of cone
    assert_eq!(estimate_distance(800, ClassLabel::Hen), estimate_distance(1600, ClassLabel::Cone));
    assert_eq!(estimate_distance(800, ClassLabel::Bucket), 221);
}

#[test]
fn distance_is_the_same_on_every_call() {
    let first = estimate_distance(1234, ClassLabel::Bucket);
    for _ in 0..10 {
        assert_eq!(estimate_distance(1234, ClassLabel::Bucket), first);
    }
}

#[test]
fn the_extreme_heights_are_handled() {
    assert_eq!(estimate_distance(MAX_HEIGHT, ClassLabel::Bucket), -1_602_364_338_574);
    assert_eq!(estimate_distance(-MAX_HEIGHT, ClassLabel::Bucket), 1_609_909_762_905);
}

#[test]
fn factors_by_class() {
    assert_eq!(height_factor(ClassLabel::Cone), Some(10));
    assert_eq!(height_factor(ClassLabel::Pylon), Some(10));
    assert_eq!(height_factor(ClassLabel::Bucket), Some(23));
    assert_eq!(height_factor(ClassLabel::Hen), Some(20));
    assert_eq!(height_factor(ClassLabel::Nothing), Some(0));
    assert_eq!(height_factor(ClassLabel::Person), None);
    assert_eq!(height_factor(ClassLabel::Roktrack), None);
}

#[test]
fn division_rounds_halves_away_from_zero() {
    assert_eq!(div_round(7, 2), 4);
    assert_eq!(div_round(-7, 2), -4);
    assert_eq!(div_round(5, 10), 1);
    assert_eq!(div_round(-5, 10), -1);
    assert_eq!(div_round(4, 10), 0);
    assert_eq!(div_round(-4, 10), 0);
    assert_eq!(div_round(14, 10), 1);
    assert_eq!(div_round(15, 10), 2);
    assert_eq!(div_round(0, 3), 0);
    assert_eq!(div_round(9, 1), 9);
    assert_eq!(div_round(i128::MAX, 1), i128::MAX);
    assert_eq!(div_round(i128::MAX, 2), i128::MAX / 2 + 1);
    assert_eq!(div_round(i128::MIN + 1, 1), i128::MIN + 1);
}
