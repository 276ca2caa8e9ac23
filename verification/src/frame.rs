//! A captured frame: decoding, the preview made from it, and the input it
//! gives the model. Pixels are handled by the `image` crate. Where what it
//! returns depends on its arguments alone, the result is named here and the
//! names carry the contracts. Decoding, and resampling for the model, may
//! differ in the last bit from one machine to the next: of those only what
//! holds on every machine is stated.

use vstd::prelude::*;
use crate::decode::MODEL_SIZE;
use crate::preview::{plan_of, PreviewMode, PreviewPlan};

verus! {

/// The longest side a frame may have, in pixels.
pub const MAX_SIDE: u32 = 65_535;

/// Quality at which previews are compressed, out of 100.
pub const JPEG_QUALITY: u8 = 80;

/// Number of samples in a model input: three planes of the model's grid.
pub const INPUT_LEN: usize = 1_228_800;

/// How an image is resampled to another size.
#[derive(Clone, Copy, Debug, PartialEq, Eq, Structural)]
pub enum Filter {
    Nearest,
    CatmullRom,
}

/// The type of one channel of a pixel.
#[derive(Clone, Copy, Debug, PartialEq, Eq, Structural)]
pub enum SampleKind {
    U8,
    U16,
    F32,
}

/// What an image holds: its size, the shape of a pixel, and the samples of
/// all pixels, row by row, as bytes.
pub struct Raster {
    pub width: nat,
    pub height: nat,
    pub channels: nat,
    pub kind: SampleKind,
    pub samples: Seq<u8>,
}

impl Raster {
    /// Both sides lie between one pixel and `MAX_SIDE`.
    pub open spec fn sized(self) -> bool {
        0 < self.width <= MAX_SIDE && 0 < self.height <= MAX_SIDE
    }

    /// The samples are integers.
    pub open spec fn integral(self) -> bool {
        !(self.kind is F32)
    }
}

/// `image::DynamicImage`: an image in memory. Nothing is known of a value but
/// what `raster_of` names.
#[verifier::external_type_specification]
#[verifier::external_body]
pub struct ExDynamicImage(image::DynamicImage);

/// `image::ImageError`: why the crate could not decode or encode. Nothing is
/// known of a value.
#[verifier::external_type_specification]
#[verifier::external_body]
pub struct ExImageError(image::ImageError);

/// What `img` holds.
pub uninterp spec fn raster_of(img: image::DynamicImage) -> Raster;

/// `source` brought to `width` by `height` pixels, each pixel taken from the
/// nearest one of `source`.
pub uninterp spec fn resampled_nearest(source: Raster, width: nat, height: nat) -> Raster;

/// `source` in shades of gray, one byte a pixel.
pub uninterp spec fn grayed(source: Raster) -> Raster;

/// The pixels of `source` as red, green and blue bytes, row by row.
pub uninterp spec fn rgb_of(source: Raster) -> Seq<u8>;

/// `source` as a JPEG file of the given quality, if it can be one.
pub uninterp spec fn jpeg_of(source: Raster, quality: u8) -> Option<Seq<u8>>;

/// `image::load_from_memory`: guesses the format from the first bytes and
/// decodes. Nothing is assumed of the outcome: the decoder chooses its
/// arithmetic by the processor, so the same bytes need not give the same
/// samples everywhere.
#[verifier::external_body]
fn decode_image(bytes: &[u8]) -> (r: Result<image::DynamicImage, image::ImageError>) {
    image::load_from_memory(bytes)
}

/// `DynamicImage::color`, reduced to the type of a sample. Assumed: the
/// colour type is that of the image's variant.
#[verifier::external_body]
fn kind_of(img: &image::DynamicImage) -> (k: SampleKind)
    ensures
        k == raster_of(*img).kind,
{
    match img.color() {
        image::ColorType::L8 => SampleKind::U8,
        image::ColorType::La8 => SampleKind::U8,
        image::ColorType::Rgb8 => SampleKind::U8,
        image::ColorType::Rgba8 => SampleKind::U8,
        image::ColorType::L16 => SampleKind::U16,
        image::ColorType::La16 => SampleKind::U16,
        image::ColorType::Rgb16 => SampleKind::U16,
        image::ColorType::Rgba16 => SampleKind::U16,
        image::ColorType::Rgb32F => SampleKind::F32,
        image::ColorType::Rgba32F => SampleKind::F32,
        _ => SampleKind::F32,
    }
}

/// `DynamicImage::width`.
#[verifier::external_body]
fn width_of(img: &image::DynamicImage) -> (w: u32)
    ensures
        w == raster_of(*img).width,
{
    img.width()
}

/// `DynamicImage::height`.
#[verifier::external_body]
fn height_of(img: &image::DynamicImage) -> (h: u32)
    ensures
        h == raster_of(*img).height,
{
    img.height()
}

/// `DynamicImage::resize_exact`, for an image and a size with sides of at
/// least one pixel. Assumed: the result has the size asked for and samples of
/// the same type as the source; and with the nearest filter, which adds and
/// multiplies only, it depends on the source and the size alone. Of the
/// pixels that the other filter gives nothing is assumed.
#[verifier::external_body]
fn resize(img: &image::DynamicImage, width: u32, height: u32, filter: Filter) -> (r:
    image::DynamicImage)
    requires
        raster_of(*img).sized(),
        0 < width <= MAX_SIDE,
        0 < height <= MAX_SIDE,
    ensures
        filter == Filter::Nearest ==> raster_of(r) == resampled_nearest(
            raster_of(*img),
            width as nat,
            height as nat,
        ),
        raster_of(r).width == width,
        raster_of(r).height == height,
        raster_of(r).kind == raster_of(*img).kind,
{
    let how = match filter {
        Filter::Nearest => image::imageops::FilterType::Nearest,
        Filter::CatmullRom => image::imageops::FilterType::CatmullRom,
    };
    img.resize_exact(width, height, how)
}

/// `DynamicImage::to_luma8` on an image of integer samples, the result held
/// as a `DynamicImage` again. Assumed: the result has the size of the source
/// and depends on the source alone.
#[verifier::external_body]
fn to_gray(img: &image::DynamicImage) -> (r: image::DynamicImage)
    requires
        raster_of(*img).integral(),
    ensures
        raster_of(r) == grayed(raster_of(*img)),
        raster_of(r).width == raster_of(*img).width,
        raster_of(r).height == raster_of(*img).height,
{
    image::DynamicImage::ImageLuma8(img.to_luma8())
}

/// `DynamicImage::to_rgb8` on an image of integer samples, and the buffer of
/// the result. Assumed: three bytes for every pixel of the source, and they
/// depend on the source alone.
#[verifier::external_body]
fn to_rgb(img: &image::DynamicImage) -> (v: Vec<u8>)
    requires
        raster_of(*img).integral(),
    ensures
        v@ == rgb_of(raster_of(*img)),
        v@.len() == 3 * raster_of(*img).width * raster_of(*img).height,
{
    img.to_rgb8().into_raw()
}

/// `DynamicImage::write_to` with the JPEG format, into memory. Assumed: the
/// outcome depends on the image and the quality alone.
#[verifier::external_body]
fn to_jpeg(img: &image::DynamicImage, quality: u8) -> (r: Result<Vec<u8>, image::ImageError>)
    ensures
        r is Ok <==> jpeg_of(raster_of(*img), quality) is Some,
        r matches Ok(v) ==> v@ == jpeg_of(raster_of(*img), quality).unwrap(),
{
    let mut out: Vec<u8> = Vec::new();
    let format = image::ImageOutputFormat::Jpeg(quality);
    match img.write_to(&mut std::io::Cursor::new(&mut out), format) {
        Ok(()) => Ok(out),
        Err(e) => Err(e),
    }
}

/// Why a frame gave no image.
#[derive(Clone, Copy, Debug, PartialEq, Eq, Structural)]
pub enum FrameError {
    /// The bytes are no image that can be decoded.
    Decode,
    /// The image has a side of no pixels, or of more than `MAX_SIDE`.
    Size,
    /// The samples of the image are no integers.
    Samples,
    /// The preview could not be compressed.
    Encode,
}

/// The image that is compressed into the preview: in gray where the plan
/// says so, and of the plan's size, each pixel taken from the nearest one.
pub open spec fn preview_image(frame: Raster, plan: PreviewPlan) -> Raster {
    let toned = if plan.gray { grayed(frame) } else { frame };
    resampled_nearest(toned, plan.width as nat, plan.height as nat)
}

/// The preview of a frame: none where the mode asks for none, else the
/// preview image as a JPEG file, or the failure to make one.
pub open spec fn preview_of(frame: Raster, mode: PreviewMode) -> Result<Option<Seq<u8>>, FrameError> {
    match plan_of(mode) {
        None => Ok(None),
        Some(plan) => match jpeg_of(preview_image(frame, plan), JPEG_QUALITY) {
            Some(bytes) => Ok(Some(bytes)),
            None => Err(FrameError::Encode),
        },
    }
}

/// Interleaved samples `r g b r g b ..` of `pixels` pixels as three planes:
/// all red samples, then all green, then all blue.
pub open spec fn planar(rgb: Seq<u8>, pixels: nat) -> Seq<u8> {
    Seq::new(3 * pixels, |i: int| rgb[(i % pixels as int) * 3 + i / pixels as int])
}

/// Whether `image` has the size of the model's grid.
pub open spec fn grid_sized(image: Raster) -> bool {
    image.width == MODEL_SIZE && image.height == MODEL_SIZE
}

/// Whether `input` can be given to the model: the pixels of some image of
/// the size of the model's grid, as three planes of bytes.
pub open spec fn is_model_input(input: Seq<u8>) -> bool {
    exists|grid: Raster|
        grid_sized(grid) && input == planar(
            #[trigger] rgb_of(grid),
            (MODEL_SIZE * MODEL_SIZE) as nat,
        )
}

/// Whether `frame` can be what opening a frame gives: an image of integer
/// samples with sides in range, or one of the failures of opening.
pub open spec fn is_opened(frame: Result<Raster, FrameError>) -> bool {
    match frame {
        Ok(image) => image.sized() && image.integral(),
        Err(e) => e != FrameError::Encode,
    }
}

fn to_planes(rgb: &Vec<u8>, pixels: usize) -> (out: Vec<u8>)
    requires
        rgb.len() == 3 * pixels,
        0 < pixels,
    ensures
        out@ == planar(rgb@, pixels as nat),
{
    let mut out: Vec<u8> = Vec::new();
    let mut c: usize = 0;
    while c < 3
        invariant
            c <= 3,
            0 < pixels,
            rgb.len() == 3 * pixels,
            out.len() == c * pixels,
            forall|i: int|
                0 <= i < out.len() ==> out[i] == rgb[(i % pixels as int) * 3 + i / pixels as int],
        decreases 3 - c,
    {
        let mut p: usize = 0;
        while p < pixels
            invariant
                c < 3,
                p <= pixels,
                0 < pixels,
                rgb.len() == 3 * pixels,
                out.len() == c * pixels + p,
                forall|i: int|
                    0 <= i < out.len() ==> out[i] == rgb[(i % pixels as int) * 3 + i
                        / pixels as int],
            decreases pixels - p,
        {
            proof {
                let i = (c * pixels + p) as int;
                vstd::arithmetic::div_mod::lemma_fundamental_div_mod_converse(
                    i,
                    pixels as int,
                    c as int,
                    p as int,
                );
            }
            out.push(rgb[p * 3 + c]);
            p += 1;
        }
        assert(c * pixels + pixels == (c + 1) * pixels) by (nonlinear_arith);
        c += 1;
    }
    assert(out@ =~= planar(rgb@, pixels as nat));
    out
}

/// A decoded frame. Its sides lie between one pixel and `MAX_SIDE`.
pub struct Frame {
    image: image::DynamicImage,
}

impl View for Frame {
    type V = Raster;

    closed spec fn view(&self) -> Raster {
        raster_of(self.image)
    }
}

/// What opening a frame gave, as mathematical values.
pub open spec fn view_of_opened(r: Result<Frame, FrameError>) -> Result<Raster, FrameError> {
    match r {
        Ok(frame) => Ok(frame@),
        Err(e) => Err(e),
    }
}

impl Frame {
    #[verifier::type_invariant]
    spec fn sound(self) -> bool {
        self@.sized() && self@.integral()
    }

    /// Decodes a captured frame. Whether the bytes decode, and to which
    /// pixels, is the decoder's to say; an image that comes out is refused if
    /// a side is out of range or its samples are no integers.
    pub fn open(bytes: &[u8]) -> (r: Result<Frame, FrameError>)
        ensures
            r matches Ok(f) ==> f@.sized() && f@.integral(),
            r matches Err(e) ==> e == FrameError::Decode || e == FrameError::Size || e
                == FrameError::Samples,
            is_opened(view_of_opened(r)),
    {
        match decode_image(bytes) {
            Err(_) => Err(FrameError::Decode),
            Ok(image) => Frame::from_image(image),
        }
    }

    /// The frame that holds a decoded `image`, if its sides are in range and
    /// its samples are integers.
    pub fn from_image(image: image::DynamicImage) -> (r: Result<Frame, FrameError>)
        ensures
            r is Ok <==> raster_of(image).sized() && raster_of(image).integral(),
            r matches Ok(f) ==> f@ == raster_of(image),
            r matches Err(e) ==> e == (if raster_of(image).sized() {
                FrameError::Samples
            } else {
                FrameError::Size
            }),
    {
        let w: u32 = width_of(&image);
        let h: u32 = height_of(&image);
        if !(0 < w && w <= MAX_SIDE && 0 < h && h <= MAX_SIDE) {
            return Err(FrameError::Size);
        }
        match kind_of(&image) {
            SampleKind::F32 => Err(FrameError::Samples),
            _ => Ok(Frame { image }),
        }
    }

    /// Width of the frame in pixels.
    pub fn width(&self) -> (w: u32)
        ensures
            w == self@.width,
            self@.sized(),
    {
        proof {
            use_type_invariant(self);
        }
        width_of(&self.image)
    }

    /// Height of the frame in pixels.
    pub fn height(&self) -> (h: u32)
        ensures
            h == self@.height,
            self@.sized(),
    {
        proof {
            use_type_invariant(self);
        }
        height_of(&self.image)
    }

    /// The preview of the frame for the given mode, compressed.
    pub fn preview(&self, mode: PreviewMode) -> (r: Result<Option<Vec<u8>>, FrameError>)
        ensures
            r matches Ok(Some(v)) ==> preview_of(self@, mode) == Ok::<
                Option<Seq<u8>>,
                FrameError,
            >(Some(v@)),
            r matches Ok(None) ==> preview_of(self@, mode) == Ok::<Option<Seq<u8>>, FrameError>(
                None,
            ),
            r matches Err(e) ==> preview_of(self@, mode) == Err::<Option<Seq<u8>>, FrameError>(e),
    {
        proof {
            use_type_invariant(self);
        }
        let plan: PreviewPlan = match mode.plan() {
            None => {
                return Ok(None);
            },
            Some(p) => p,
        };
        let small: image::DynamicImage = if plan.gray {
            let toned: image::DynamicImage = to_gray(&self.image);
            resize(&toned, plan.width, plan.height, Filter::Nearest)
        } else {
            resize(&self.image, plan.width, plan.height, Filter::Nearest)
        };
        match to_jpeg(&small, JPEG_QUALITY) {
            Ok(v) => Ok(Some(v)),
            Err(_) => Err(FrameError::Encode),
        }
    }

    /// The frame as the model takes it: resampled to the model's grid, the
    /// red samples of all pixels first, then the green, then the blue. Which
    /// values the resampling gives is not said, only that the input is the
    /// planes of an image of the grid's size.
    pub fn model_input(&self) -> (v: Vec<u8>)
        ensures
            v.len() == INPUT_LEN,
            is_model_input(v@),
    {
        proof {
            use_type_invariant(self);
        }
        let grid: image::DynamicImage = resize(
            &self.image,
            MODEL_SIZE,
            MODEL_SIZE,
            Filter::CatmullRom,
        );
        let rgb: Vec<u8> = to_rgb(&grid);
        assert(rgb.len() == 3 * 409_600) by {
            assert(raster_of(grid).width * raster_of(grid).height == 409_600) by (nonlinear_arith)
                requires
                    raster_of(grid).width == 640,
                    raster_of(grid).height == 640,
            ;
        }
        let planes: Vec<u8> = to_planes(&rgb, 409_600);
        assert(grid_sized(raster_of(grid)) && planes@ == planar(
            rgb_of(raster_of(grid)),
            (MODEL_SIZE * MODEL_SIZE) as nat,
        ));
        planes
    }
}

} // verus!
