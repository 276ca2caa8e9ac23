use cam_detect::decode::{decode, transpose, DecodeError, ROW_LEN};
use cam_detect::detection::Detection;
use cam_detect::labels::{ClassLabel, ModelVariant};

const ONE: i64 = 1_000_000;

fn row(cx: i64, cy: i64, w: i64, h: i64, scores: [i64; 3]) -> Vec<i64> {
    vec![cx * ONE, cy * ONE, w * ONE, h * ONE, scores[0], scores[1], scores[2]]
}

fn corners(d: &Detection) -> (i32, i32, i32, i32) {
    (d.bbox.x1(), d.bbox.y1(), d.bbox.x2(), d.bbox.y2())
}

#[test]
fn a_row_is_scaled_from_the_grid_to_the_image() {
    let rows = vec![row(320, 180, 100, 50, [100_000, 50_000, 930_000])];
    let dets = decode(&rows, 640, 360, ModelVariant::A, 400_000).unwrap();
    assert_eq!(dets.len(), 1);
    // 270.0, 87.1875, 370.0, 115.3125 pixels
    assert_eq!(corners(&dets[0]), (4320, 1395, 5920, 1845));
    assert_eq!(dets[0].bbox.x1() as f64 / 16.0, 270.0);
    assert_eq!(dets[0].bbox.y1() as f64 / 16.0, 87.1875);
    assert_eq!(dets[0].bbox.x2() as f64 / 16.0, 370.0);
    assert_eq!(dets[0].bbox.y2() as f64 / 16.0, 115.3125);
    assert_eq!(dets[0].label, ClassLabel::Cone);
    assert_eq!(dets[0].confidence, 9);
}

#[test]
fn the_label_table_follows_the_model() {
    let rows = vec![
        row(100, 100, 10, 10, [900_000, 0, 0]),
        row(200, 100, 10, 10, [0, 900_000, 0]),
        row(300, 100, 10, 10, [0, 0, 900_000]),
    ];
    let a = decode(&rows, 640, 640, ModelVariant::A, 400_000).unwrap();
    let labels: Vec<ClassLabel> = a.iter().map(|d| d.label).collect();
    assert_eq!(labels, vec![ClassLabel::Hen, ClassLabel::Bucket, ClassLabel::Cone]);
    let b = decode(&rows, 640, 640, ModelVariant::B, 400_000).unwrap();
    let labels: Vec<ClassLabel> = b.iter().map(|d| d.label).collect();
    assert_eq!(labels, vec![ClassLabel::Pylon, ClassLabel::Person, ClassLabel::Roktrack]);
}

#[test]
fn rows_below_the_threshold_are_dropped_and_order_is_kept() {
    let rows = vec![
        row(100, 100, 10, 10, [500_000, 0, 0]),
        row(200, 100, 10, 10, [399_999, 0, 0]),
        row(300, 100, 10, 10, [0, 400_000, 0]),
        row(400, 100, 10, 10, [0, 0, 990_000]),
        row(500, 100, 10, 10, [0, 0, 0]),
    ];
    let dets = decode(&rows, 640, 640, ModelVariant::A, 400_000).unwrap();
    let seen: Vec<(i32, i64)> = dets.iter().map(|d| (d.bbox.x1(), d.confidence)).collect();
    // not sorted by confidence: the order is that of the rows
    assert_eq!(seen, vec![(95 * 16, 5), (295 * 16, 4), (395 * 16, 10)]);
}

#[test]
fn of_equal_scores_the_first_class_wins() {
    let rows = vec![
        row(100, 100, 10, 10, [700_000, 700_000, 700_000]),
        row(100, 100, 10, 10, [100_000, 700_000, 700_000]),
        row(100, 100, 10, 10, [700_000, 100_000, 700_000]),
    ];
    let dets = decode(&rows, 640, 640, ModelVariant::A, 400_000).unwrap();
    let labels: Vec<ClassLabel> = dets.iter().map(|d| d.label).collect();
    assert_eq!(labels, vec![ClassLabel::Hen, ClassLabel::Bucket, ClassLabel::Hen]);
}

#[test]
fn confidence_is_rounded_to_tenths() {
    let scores = [
        (449_999, 4),
        (450_000, 5),
        (549_999, 5),
        (550_000, 6),
        (949_999, 9),
        (950_000, 10),
        (1_000_000, 10),
        (1_049_999, 10),
        (1_050_000, 11),
    ];
    for (score, tenths) in scores {
        let rows = vec![row(100, 100, 10, 10, [score, 0, 0])];
        let dets = decode(&rows, 640, 640, ModelVariant::A, 400_000).unwrap();
        assert_eq!(dets[0].confidence, tenths, "score {}", score);
    }
}

#[test]
fn negative_scores_pass_a_negative_threshold() {
    let rows = vec![row(100, 100, 10, 10, [-250_000, -260_000, -900_000])];
    let dets = decode(&rows, 640, 640, ModelVariant::A, -300_000).unwrap();
    assert_eq!(dets.len(), 1);
    assert_eq!(dets[0].label, ClassLabel::Hen);
    // -0.25 is halfway between -0.2 and -0.3 and goes away from zero
    assert_eq!(dets[0].confidence, -3);
    assert!(decode(&rows, 640, 640, ModelVariant::A, 0).unwrap().is_empty());
}

#[test]
fn coordinates_are_rounded_to_the_nearest_sixteenth() {
    // 1 grid cell on a 641 px side is 1.0015625 px = 16.025 sixteenths
    let rows = vec![vec![ONE, ONE, 0, 0, 900_000, 0, 0]];
    let dets = decode(&rows, 641, 641, ModelVariant::A, 400_000).unwrap();
    assert_eq!(corners(&dets[0]), (16, 16, 16, 16));
    // 0.03125 cells on a 640 px side is half a sixteenth: away from zero
    let rows = vec![vec![31_250, -31_250, 0, 0, 900_000, 0, 0]];
    let dets = decode(&rows, 640, 640, ModelVariant::A, 400_000).unwrap();
    assert_eq!(corners(&dets[0]), (1, -1, 1, -1));
}

#[test]
fn a_negative_size_gives_a_reversed_box() {
    let rows = vec![row(100, 100, -20, -10, [900_000, 0, 0])];
    let dets = decode(&rows, 640, 640, ModelVariant::A, 400_000).unwrap();
    assert_eq!(corners(&dets[0]), (110 * 16, 105 * 16, 90 * 16, 95 * 16));
}

#[test]
fn an_empty_output_gives_no_detection() {
    let rows: Vec<Vec<i64>> = Vec::new();
    assert_eq!(decode(&rows, 640, 360, ModelVariant::A, 400_000), Ok(Vec::new()));
}

#[test]
fn a_misshapen_row_is_an_error() {
    let good = row(100, 100, 10, 10, [900_000, 0, 0]);
    let short = vec![ONE, ONE, ONE, ONE, 900_000, 0];
    let long = vec![ONE, ONE, ONE, ONE, 900_000, 0, 0, 0];
    assert_eq!(
        decode(&vec![good.clone(), short.clone()], 640, 640, ModelVariant::A, 400_000),
        Err(DecodeError::Shape { row: 1 })
    );
    assert_eq!(
        decode(&vec![long, good.clone(), short], 640, 640, ModelVariant::A, 400_000),
        Err(DecodeError::Shape { row: 0 })
    );
    assert_eq!(
        decode(&vec![Vec::new()], 640, 640, ModelVariant::B, 400_000),
        Err(DecodeError::Shape { row: 0 })
    );
}

#[test]
fn a_box_outside_the_range_is_an_error() {
    let good = row(100, 100, 10, 10, [900_000, 0, 0]);
    // centre at 70 000 px on a 640 px image
    let far = row(70_000, 100, 10, 10, [900_000, 0, 0]);
    assert_eq!(
        decode(&vec![good.clone(), far.clone()], 640, 640, ModelVariant::A, 400_000),
        Err(DecodeError::Range { row: 1 })
    );
    // below the threshold the row is dropped before its box is looked at
    let far_and_faint = row(70_000, 100, 10, 10, [100_000, 0, 0]);
    let dets = decode(&vec![good, far_and_faint], 640, 640, ModelVariant::A, 400_000).unwrap();
    assert_eq!(dets.len(), 1);
    // a misshapen row is reported first, wherever it stands
    assert_eq!(
        decode(&vec![far, vec![0, 0]], 640, 640, ModelVariant::A, 400_000),
        Err(DecodeError::Shape { row: 1 })
    );
}

#[test]
fn the_edge_of_the_range_is_inside() {
    // 65 536 px exactly
    let rows = vec![row(65_536, 0, 0, 0, [900_000, 0, 0])];
    let dets = decode(&rows, 640, 640, ModelVariant::A, 400_000).unwrap();
    assert_eq!(dets[0].bbox.x1(), 1_048_576);
    let rows = vec![vec![65_536 * ONE + 31_250, 0, 0, 0, 900_000, 0, 0]];
    assert_eq!(
        decode(&rows, 640, 640, ModelVariant::A, 400_000),
        Err(DecodeError::Range { row: 0 })
    );
}

#[test]
fn the_largest_raw_values_are_handled() {
    let rows = vec![vec![i64::MAX, i64::MIN, i64::MAX, i64::MIN, i64::MAX, i64::MIN, 0]];
    assert_eq!(
        decode(&rows, u32::MAX, u32::MAX, ModelVariant::A, 400_000),
        Err(DecodeError::Range { row: 0 })
    );
    // on an image without width or height every box is a point at the origin
    let dets = decode(&rows, 0, 0, ModelVariant::A, i64::MAX).unwrap();
    assert_eq!(corners(&dets[0]), (0, 0, 0, 0));
    assert_eq!(dets[0].confidence, 92_233_720_368_548);
    let rows = vec![vec![0, 0, 0, 0, i64::MIN, i64::MIN, i64::MIN]];
    let dets = decode(&rows, 0, 0, ModelVariant::A, i64::MIN).unwrap();
    assert_eq!(dets[0].confidence, -92_233_720_368_548);
}

#[test]
fn an_output_stored_value_by_value_is_turned_into_rows() {
    // two rows of three values: value 0 of both rows, then value 1, then value 2
    assert_eq!(transpose(&vec![1, 2, 10, 20, 100, 200], 3), Some(vec![vec![1, 10, 100], vec![2, 20, 200]]));
    assert_eq!(transpose(&vec![1, 2, 3], 3), Some(vec![vec![1, 2, 3]]));
    assert_eq!(transpose(&vec![1, 2, 3], 1), Some(vec![vec![1], vec![2], vec![3]]));
    assert_eq!(transpose(&Vec::new(), 7), Some(Vec::new()));
    assert_eq!(transpose(&vec![1, 2, 3, 4], 3), None);
    assert_eq!(transpose(&vec![1, 2, 3, 4], 0), None);
    assert_eq!(transpose(&Vec::new(), 0), None);
}

#[test]
fn a_transposed_output_is_decoded_row_by_row() {
    // three anchors; the scores of the second are below the threshold
    let anchors = 3;
    let mut values = vec![0i64; ROW_LEN * anchors];
    let rows = [
        row(100, 100, 10, 10, [900_000, 0, 0]),
        row(200, 100, 10, 10, [0, 100_000, 0]),
        row(300, 100, 10, 10, [0, 0, 800_000]),
    ];
    for (a, r) in rows.iter().enumerate() {
        for (c, v) in r.iter().enumerate() {
            values[c * anchors + a] = *v;
        }
    }
    let back = transpose(&values, ROW_LEN).unwrap();
    assert_eq!(back, rows.to_vec());
    let dets = decode(&back, 640, 640, ModelVariant::A, 400_000).unwrap();
    let labels: Vec<ClassLabel> = dets.iter().map(|d| d.label).collect();
    assert_eq!(labels, vec![ClassLabel::Hen, ClassLabel::Cone]);
}
