use cam_detect::frame::{Frame, FrameError, INPUT_LEN};
use cam_detect::preview::{PreviewMode, PreviewPlan};
use image::{ColorType, DynamicImage, ImageOutputFormat, Rgb, RgbImage};
use std::io::Cursor;

/// A frame whose left half is red and whose right half is blue.
fn two_tone(width: u32, height: u32) -> Vec<u8> {
    let mut img = RgbImage::new(width, height);
    for (x, _, pixel) in img.enumerate_pixels_mut() {
        *pixel = if x < width / 2 { Rgb([255, 0, 0]) } else { Rgb([0, 0, 255]) };
    }
    let mut bytes = Vec::new();
    DynamicImage::ImageRgb8(img)
        .write_to(&mut Cursor::new(&mut bytes), ImageOutputFormat::Jpeg(95))
        .unwrap();
    bytes
}

#[test]
fn a_frame_is_decoded_with_its_size() {
    let frame = Frame::open(&two_tone(64, 36)).unwrap();
    assert_eq!((frame.width(), frame.height()), (64, 36));
    let frame = Frame::open(&two_tone(640, 360)).unwrap();
    assert_eq!((frame.width(), frame.height()), (640, 360));
}

#[test]
fn bytes_that_are_no_image_are_refused() {
    assert_eq!(Frame::open(&[]).err(), Some(FrameError::Decode));
    assert_eq!(Frame::open(b"not an image at all").err(), Some(FrameError::Decode));
    let mut cut = two_tone(64, 36);
    cut.truncate(40);
    assert_eq!(Frame::open(&cut).err(), Some(FrameError::Decode));
}

#[test]
fn a_frame_is_opened_the_same_way_each_time_here() {
    // on one machine; between machines the samples may differ in the last bit
    let bytes = two_tone(64, 36);
    let first = Frame::open(&bytes).unwrap().model_input();
    let second = Frame::open(&bytes).unwrap().model_input();
    assert_eq!(first, second);
}

#[test]
fn an_image_without_pixels_is_refused() {
    assert_eq!(Frame::from_image(DynamicImage::new_rgb8(0, 0)).err(), Some(FrameError::Size));
    assert_eq!(Frame::from_image(DynamicImage::new_rgb8(10, 0)).err(), Some(FrameError::Size));
    assert_eq!(Frame::from_image(DynamicImage::new_luma8(0, 10)).err(), Some(FrameError::Size));
    assert!(Frame::from_image(DynamicImage::new_luma8(1, 1)).is_ok());
}

#[test]
fn an_image_of_float_samples_is_refused() {
    assert_eq!(
        Frame::from_image(DynamicImage::new_rgb32f(4, 4)).err(),
        Some(FrameError::Samples)
    );
    assert_eq!(
        Frame::from_image(DynamicImage::new_rgba32f(4, 4)).err(),
        Some(FrameError::Samples)
    );
    // without pixels the size is what is reported
    assert_eq!(Frame::from_image(DynamicImage::new_rgb32f(0, 4)).err(), Some(FrameError::Size));
    for image in [
        DynamicImage::new_luma8(4, 4),
        DynamicImage::new_luma_a8(4, 4),
        DynamicImage::new_rgb8(4, 4),
        DynamicImage::new_rgba8(4, 4),
        DynamicImage::new_luma16(4, 4),
        DynamicImage::new_luma_a16(4, 4),
        DynamicImage::new_rgb16(4, 4),
        DynamicImage::new_rgba16(4, 4),
    ] {
        let frame = Frame::from_image(image).ok().unwrap();
        assert_eq!((frame.width(), frame.height()), (4, 4));
        assert_eq!(frame.model_input().len(), INPUT_LEN);
    }
}

#[test]
fn a_preview_that_cannot_be_compressed_is_an_error() {
    // JPEG holds no 16-bit samples
    let frame = Frame::from_image(DynamicImage::new_rgb16(8, 8)).ok().unwrap();
    assert_eq!(frame.preview(PreviewMode::Med), Err(FrameError::Encode));
    assert_eq!(frame.preview(PreviewMode::High), Err(FrameError::Encode));
    // in gray it is brought to 8 bits first
    let jpeg = frame.preview(PreviewMode::Low).unwrap().unwrap();
    assert_eq!(&jpeg[..2], &[0xff, 0xd8]);
    assert_eq!(frame.preview(PreviewMode::Off), Ok(None));
}

#[test]
fn an_image_in_memory_gives_its_own_pixels() {
    let mut img = RgbImage::new(640, 640);
    for (x, y, pixel) in img.enumerate_pixels_mut() {
        *pixel = Rgb([(x % 256) as u8, (y % 256) as u8, ((x + y) % 256) as u8]);
    }
    let frame = Frame::from_image(DynamicImage::ImageRgb8(img)).ok().unwrap();
    let input = frame.model_input();
    for (x, y) in [(0usize, 0usize), (5, 600), (639, 1), (300, 300)] {
        assert_eq!(input[y * 640 + x], (x % 256) as u8);
        assert_eq!(input[640 * 640 + y * 640 + x], (y % 256) as u8);
        assert_eq!(input[2 * 640 * 640 + y * 640 + x], ((x + y) % 256) as u8);
    }
}

#[test]
fn preview_plans_by_mode() {
    assert_eq!(PreviewMode::Off.plan(), None);
    assert_eq!(PreviewMode::Low.plan(), Some(PreviewPlan { width: 320, height: 180, gray: true }));
    assert_eq!(PreviewMode::Med.plan(), Some(PreviewPlan { width: 320, height: 180, gray: false }));
    assert_eq!(
        PreviewMode::High.plan(),
        Some(PreviewPlan { width: 640, height: 360, gray: false })
    );
}

#[test]
fn no_preview_where_none_is_asked_for() {
    let frame = Frame::open(&two_tone(64, 36)).unwrap();
    assert_eq!(frame.preview(PreviewMode::Off), Ok(None));
}

#[test]
fn previews_have_the_size_and_colour_of_their_mode() {
    let source = two_tone(640, 360);
    let frame = Frame::open(&source).unwrap();
    let cases = [
        (PreviewMode::Low, 320, 180, ColorType::L8),
        (PreviewMode::Med, 320, 180, ColorType::Rgb8),
        (PreviewMode::High, 640, 360, ColorType::Rgb8),
    ];
    for (mode, width, height, colour) in cases {
        let jpeg = frame.preview(mode).unwrap().unwrap();
        assert_eq!(&jpeg[..2], &[0xff, 0xd8]);
        assert_ne!(jpeg, source);
        let back = image::load_from_memory(&jpeg).unwrap();
        assert_eq!((back.width(), back.height()), (width, height));
        assert_eq!(back.color(), colour);
        // the left half is still red, the right half blue
        let rgb = back.to_rgb8();
        let left = rgb.get_pixel(width / 4, height / 2);
        let right = rgb.get_pixel(3 * width / 4, height / 2);
        if colour == ColorType::Rgb8 {
            assert!(left[0] > 200 && left[2] < 60, "{:?}", left);
            assert!(right[2] > 200 && right[0] < 60, "{:?}", right);
        } else {
            assert!(left[0] > right[0], "{:?} {:?}", left, right);
        }
    }
}

#[test]
fn a_small_frame_is_enlarged_for_the_preview() {
    let frame = Frame::open(&two_tone(64, 36)).unwrap();
    let jpeg = frame.preview(PreviewMode::High).unwrap().unwrap();
    let back = image::load_from_memory(&jpeg).unwrap();
    assert_eq!((back.width(), back.height()), (640, 360));
}

#[test]
fn the_model_input_is_three_planes_of_the_grid() {
    let frame = Frame::open(&two_tone(64, 36)).unwrap();
    let input = frame.model_input();
    assert_eq!(input.len(), INPUT_LEN);
    assert_eq!(input.len(), 3 * 640 * 640);
    let at = |plane: usize, x: usize, y: usize| input[plane * 640 * 640 + y * 640 + x];
    for y in [0usize, 100, 320, 639] {
        // left: red plane high, blue plane low
        assert!(at(0, 100, y) > 200, "{}", at(0, 100, y));
        assert!(at(1, 100, y) < 60);
        assert!(at(2, 100, y) < 60);
        // right: the other way round
        assert!(at(0, 540, y) < 60);
        assert!(at(1, 540, y) < 60);
        assert!(at(2, 540, y) > 200);
    }
}

#[test]
fn the_model_input_of_a_frame_of_the_grid_size_is_the_frame() {
    let bytes = two_tone(640, 640);
    let frame = Frame::open(&bytes).unwrap();
    let input = frame.model_input();
    let rgb = image::load_from_memory(&bytes).unwrap().to_rgb8();
    for (x, y) in [(0u32, 0u32), (17, 400), (319, 5), (320, 5), (639, 639)] {
        let pixel = rgb.get_pixel(x, y);
        for plane in 0..3usize {
            let i = plane * 640 * 640 + (y as usize) * 640 + x as usize;
            assert_eq!(input[i], pixel[plane]);
        }
    }
}
