use cam_detect::detect::{detect, process_output};
use cam_detect::detection::Detection;
use cam_detect::geometry::{iou, BoundingBox};
use cam_detect::labels::{ClassLabel, ModelVariant};
use cam_detect::nms::{deduplicate, select, sort_by_confidence, IOU_THRESHOLD};

fn det(x1: i32, y1: i32, x2: i32, y2: i32, label: ClassLabel, confidence: i64) -> Detection {
    Detection {
        bbox: BoundingBox::new(x1 * 16, y1 * 16, x2 * 16, y2 * 16).unwrap(),
        label,
        confidence,
    }
}

#[test]
fn sorting_is_by_falling_confidence_and_stable() {
    let a = det(0, 0, 10, 10, ClassLabel::Hen, 5);
    let b = det(100, 0, 110, 10, ClassLabel::Cone, 9);
    let c = det(200, 0, 210, 10, ClassLabel::Bucket, 5);
    let d = det(300, 0, 310, 10, ClassLabel::Hen, 9);
    let e = det(400, 0, 410, 10, ClassLabel::Cone, 7);
    let sorted = sort_by_confidence(&vec![a, b, c, d, e]);
    assert_eq!(sorted, vec![b, d, e, a, c]);
    assert_eq!(sort_by_confidence(&Vec::new()), Vec::new());
    assert_eq!(sort_by_confidence(&vec![a]), vec![a]);
}

#[test]
fn the_most_confident_of_a_cluster_stays() {
    // three boxes on one object, one box elsewhere
    let weak = det(0, 0, 100, 100, ClassLabel::Cone, 6);
    let strong = det(2, 0, 102, 100, ClassLabel::Cone, 9);
    let middle = det(0, 3, 100, 103, ClassLabel::Cone, 8);
    let other = det(500, 500, 600, 600, ClassLabel::Cone, 5);
    let kept = deduplicate(&vec![weak, strong, middle, other], false);
    assert_eq!(kept, vec![strong, other]);
}

#[test]
fn suppression_starts_at_seven_tenths() {
    let a = det(0, 0, 100, 100, ClassLabel::Cone, 9);
    let at = det(0, 0, 100, 70, ClassLabel::Cone, 8);
    let under = det(0, 0, 100, 69, ClassLabel::Cone, 7);
    assert_eq!(iou(&a.bbox, &at.bbox), IOU_THRESHOLD);
    assert_eq!(iou(&a.bbox, &under.bbox), 690_000);
    assert_eq!(deduplicate(&vec![a, at], false), vec![a]);
    assert_eq!(deduplicate(&vec![a, under], false), vec![a, under]);
}

#[test]
fn suppression_crosses_classes_unless_asked_otherwise() {
    let cone = det(0, 0, 100, 100, ClassLabel::Cone, 9);
    let hen = det(1, 1, 101, 101, ClassLabel::Hen, 8);
    let cone_again = det(2, 2, 102, 102, ClassLabel::Cone, 7);
    let all = vec![cone, hen, cone_again];
    assert_eq!(deduplicate(&all, false), vec![cone]);
    assert_eq!(deduplicate(&all, true), vec![cone, hen]);
}

#[test]
fn a_suppressed_detection_suppresses_nothing() {
    // b overlaps a and c by the threshold; a and c overlap by less
    let a = det(0, 0, 100, 100, ClassLabel::Cone, 9);
    let b = det(10, 0, 110, 100, ClassLabel::Cone, 8);
    let c = det(20, 0, 120, 100, ClassLabel::Cone, 7);
    assert!(iou(&a.bbox, &b.bbox) >= IOU_THRESHOLD);
    assert!(iou(&b.bbox, &c.bbox) >= IOU_THRESHOLD);
    assert!(iou(&a.bbox, &c.bbox) < IOU_THRESHOLD);
    assert_eq!(deduplicate(&vec![c, b, a], false), vec![a, c]);
}

#[test]
fn a_box_without_area_is_kept_once() {
    let flat = det(10, 10, 10, 50, ClassLabel::Cone, 9);
    assert_eq!(deduplicate(&vec![flat], false), vec![flat]);
    // two equal boxes without area do not overlap: both stay
    assert_eq!(deduplicate(&vec![flat, flat], false), vec![flat, flat]);
}

#[test]
fn selection_takes_the_pool_as_it_is_ordered() {
    let weak = det(0, 0, 100, 100, ClassLabel::Cone, 1);
    let strong = det(1, 0, 101, 100, ClassLabel::Cone, 9);
    assert_eq!(select(vec![weak, strong], false), vec![weak]);
    assert_eq!(select(Vec::new(), false), Vec::new());
}

#[test]
fn deduplication_keeps_its_promises() {
    let labels = [ClassLabel::Hen, ClassLabel::Bucket, ClassLabel::Cone];
    let mut input: Vec<Detection> = Vec::new();
    let mut seed: u32 = 12345;
    for i in 0..60 {
        seed = seed.wrapping_mul(1_103_515_245).wrapping_add(12_345);
        let x = ((seed >> 8) % 200) as i32;
        seed = seed.wrapping_mul(1_103_515_245).wrapping_add(12_345);
        let y = ((seed >> 8) % 200) as i32;
        seed = seed.wrapping_mul(1_103_515_245).wrapping_add(12_345);
        let conf = ((seed >> 8) % 7 + 4) as i64;
        input.push(det(x, y, x + 60, y + 80, labels[i % 3], conf));
    }
    for per_class in [false, true] {
        let out = deduplicate(&input, per_class);
        assert!(!out.is_empty());
        assert!(out.len() <= input.len());
        for d in out.iter() {
            assert!(input.contains(d));
        }
        for pair in out.windows(2) {
            assert!(pair[0].confidence >= pair[1].confidence);
        }
        for i in 0..out.len() {
            for j in 0..out.len() {
                if i != j {
                    let apart = iou(&out[i].bbox, &out[j].bbox) < IOU_THRESHOLD;
                    assert!(apart || (per_class && out[i].label != out[j].label));
                }
            }
        }
        // every detection that was dropped is suppressed by one that was kept
        for d in input.iter() {
            if !out.contains(d) {
                assert!(out.iter().any(|k| iou(&k.bbox, &d.bbox) >= IOU_THRESHOLD
                    && (!per_class || k.label == d.label)
                    && k.confidence >= d.confidence));
            }
        }
    }
}

#[test]
fn output_rows_become_deduplicated_detections() {
    let one: i64 = 1_000_000;
    let rows = vec![
        vec![100 * one, 100 * one, 50 * one, 50 * one, 10_000, 20_000, 610_000],
        vec![101 * one, 100 * one, 50 * one, 50 * one, 10_000, 20_000, 880_000],
        vec![400 * one, 300 * one, 50 * one, 50 * one, 930_000, 20_000, 10_000],
        vec![100 * one, 101 * one, 50 * one, 50 * one, 720_000, 20_000, 10_000],
        vec![500 * one, 500 * one, 50 * one, 50 * one, 100_000, 200_000, 300_000],
    ];
    let dets = process_output(&rows, 640, 640, ModelVariant::A, 400_000, false).unwrap();
    let seen: Vec<(ClassLabel, i64, i32)> =
        dets.iter().map(|d| (d.label, d.confidence, d.bbox.x1())).collect();
    assert_eq!(seen, vec![(ClassLabel::Cone, 9, 76 * 16), (ClassLabel::Hen, 9, 375 * 16)]);
    assert_eq!(detect(&rows, 640, 640, ModelVariant::A, 400_000), Ok(dets));
    let dets = process_output(&rows, 640, 640, ModelVariant::A, 400_000, true).unwrap();
    let seen: Vec<(ClassLabel, i64, i32)> =
        dets.iter().map(|d| (d.label, d.confidence, d.bbox.x1())).collect();
    assert_eq!(
        seen,
        vec![
            (ClassLabel::Cone, 9, 76 * 16),
            (ClassLabel::Hen, 9, 375 * 16),
            (ClassLabel::Hen, 7, 75 * 16)
        ]
    );
}
