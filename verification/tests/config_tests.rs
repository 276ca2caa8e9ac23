use cam_detect::camera::{device_path, CameraConfig, CaptureSettings, DEVICE_COUNT, WARMUP_FRAMES};
use cam_detect::config::{period_ms, PipelineConfig};
use cam_detect::labels::{ClassLabel, ModelVariant, CLASS_COUNT};
use cam_detect::preview::PreviewMode;
use cam_detect::text::same_text;

#[test]
fn the_period_is_a_thousand_seconds_over_the_rate() {
    assert_eq!(period_ms(500), Some(2000));
    assert_eq!(period_ms(300), Some(3333));
    assert_eq!(period_ms(1000), Some(1000));
    assert_eq!(period_ms(3), Some(333_333));
    assert_eq!(period_ms(1), Some(1_000_000));
    assert_eq!(period_ms(30_000), Some(33));
    assert_eq!(period_ms(400), Some(2500));
    // 1.5 ms rounds up, 0.5 ms rounds up, less rounds to nothing
    assert_eq!(period_ms(666_667), Some(1));
    assert_eq!(period_ms(2_000_000), Some(1));
    assert_eq!(period_ms(2_000_001), Some(0));
    assert_eq!(period_ms(u32::MAX), Some(0));
    assert_eq!(period_ms(0), None);
}

#[test]
fn default_settings() {
    let c = PipelineConfig::default();
    assert_eq!(c.period_ms, 2000);
    assert_eq!(c.threshold, 400_000);
    assert_eq!(c.model, ModelVariant::A);
    assert_eq!(c.preview, PreviewMode::High);
    assert!(!c.verbose);
    assert!(!c.per_class);
    assert_eq!(
        PipelineConfig::new(500, 400_000, ModelVariant::A, PreviewMode::High, false),
        Some(c)
    );
}

#[test]
fn settings_are_taken_as_given() {
    let c = PipelineConfig::new(300, 250_000, ModelVariant::B, PreviewMode::Low, true).unwrap();
    assert_eq!(c.period_ms, 3333);
    assert_eq!(c.threshold, 250_000);
    assert_eq!(c.model, ModelVariant::B);
    assert_eq!(c.preview, PreviewMode::Low);
    assert!(c.verbose);
    assert!(!c.per_class);
    assert_eq!(PipelineConfig::new(0, 250_000, ModelVariant::B, PreviewMode::Low, true), None);
}

#[test]
fn names_of_models_and_modes() {
    assert_eq!(ModelVariant::from_name("A"), Some(ModelVariant::A));
    assert_eq!(ModelVariant::from_name("B"), Some(ModelVariant::B));
    assert_eq!(ModelVariant::from_name("a"), None);
    assert_eq!(ModelVariant::from_name(""), None);
    assert_eq!(PreviewMode::from_name("none"), Some(PreviewMode::Off));
    assert_eq!(PreviewMode::from_name("low"), Some(PreviewMode::Low));
    assert_eq!(PreviewMode::from_name("med"), Some(PreviewMode::Med));
    assert_eq!(PreviewMode::from_name("high"), Some(PreviewMode::High));
    assert_eq!(PreviewMode::from_name("full"), None);
}

#[test]
fn labels_and_their_names() {
    let all = [
        (ClassLabel::Hen, "hen"),
        (ClassLabel::Bucket, "bucket"),
        (ClassLabel::Cone, "cone"),
        (ClassLabel::Pylon, "pylon"),
        (ClassLabel::Person, "person"),
        (ClassLabel::Roktrack, "roktrack"),
        (ClassLabel::Nothing, "nothing"),
    ];
    for (label, name) in all {
        assert_eq!(label.name(), name);
        assert_eq!(ClassLabel::from_name(name), Some(label));
    }
    assert_eq!(ClassLabel::from_name("dog"), None);
}

#[test]
fn label_tables_of_the_models() {
    assert_eq!(CLASS_COUNT, 3);
    assert_eq!(ModelVariant::A.label(0), Some(ClassLabel::Hen));
    assert_eq!(ModelVariant::A.label(1), Some(ClassLabel::Bucket));
    assert_eq!(ModelVariant::A.label(2), Some(ClassLabel::Cone));
    assert_eq!(ModelVariant::A.label(3), None);
    assert_eq!(ModelVariant::B.label(0), Some(ClassLabel::Pylon));
    assert_eq!(ModelVariant::B.label(1), Some(ClassLabel::Person));
    assert_eq!(ModelVariant::B.label(2), Some(ClassLabel::Roktrack));
    assert_eq!(ModelVariant::B.label(usize::MAX), None);
    assert_eq!(ModelVariant::A.model_file(), "./yolov8n_hen_bucket_cone_640.onnx");
    assert_eq!(ModelVariant::B.model_file(), "./roktrack_yolov8_nano_fixed_640_640.onnx");
}

#[test]
fn camera_settings() {
    assert_eq!(CameraConfig::new().path, "image.jpg");
    assert_eq!(DEVICE_COUNT, 2);
    assert_eq!(WARMUP_FRAMES, 3);
    assert_eq!(device_path(0), Some("/dev/video5"));
    assert_eq!(device_path(1), Some("/dev/video0"));
    assert_eq!(device_path(2), None);
    let s = CaptureSettings::standard();
    assert_eq!((s.frames_per_second, s.width, s.height, s.buffers), (30, 640, 360, 1));
    assert_eq!(CaptureSettings::format(), "MJPG");
}

#[test]
fn texts_are_compared_by_their_characters() {
    assert!(same_text("high", "high"));
    assert!(!same_text("high", "High"));
    assert!(!same_text("high", "hig"));
    assert!(same_text("", ""));
}
