//! What the capture device is opened and started with.

use vstd::prelude::*;

verus! {

/// Number of device paths that are tried at startup.
pub const DEVICE_COUNT: usize = 2;

/// Number of frames that are captured and thrown away before the frame that
/// a cycle uses, so that the frame is not one the device had buffered.
pub const WARMUP_FRAMES: u8 = 3;

/// Where the frame of the current cycle is kept on disk.
pub struct CameraConfig {
    pub path: String,
}

impl CameraConfig {
    /// The configuration that keeps the frame in `image.jpg`.
    pub fn new() -> (c: CameraConfig)
        ensures
            c.path@ == "image.jpg"@,
    {
        CameraConfig { path: "image.jpg".to_owned() }
    }
}

/// How the capture device is started.
#[derive(Clone, Copy, Debug, PartialEq, Eq, Structural)]
pub struct CaptureSettings {
    /// Frames in a second.
    pub frames_per_second: u32,
    /// Width of a frame, in pixels.
    pub width: u32,
    /// Height of a frame, in pixels.
    pub height: u32,
    /// Number of buffers the driver fills.
    pub buffers: u32,
}

impl CaptureSettings {
    /// Thirty frames a second of 640 by 360 pixels, one buffer.
    pub fn standard() -> (s: CaptureSettings)
        ensures
            s == (CaptureSettings { frames_per_second: 30, width: 640, height: 360, buffers: 1 }),
    {
        CaptureSettings { frames_per_second: 30, width: 640, height: 360, buffers: 1 }
    }

    /// The four-character code of the frame format.
    pub fn format() -> (s: &'static str)
        ensures
            s@ == "MJPG"@,
    {
        "MJPG"
    }
}

/// The device paths in the order in which they are tried.
pub open spec fn device_paths() -> Seq<Seq<char>> {
    seq!["/dev/video5"@, "/dev/video0"@]
}

/// The path that is tried as number `candidate`, if there is one.
pub fn device_path(candidate: usize) -> (r: Option<&'static str>)
    ensures
        r is Some <==> candidate < DEVICE_COUNT,
        r matches Some(p) ==> p@ == device_paths()[candidate as int],
        device_paths().len() == DEVICE_COUNT,
{
    if candidate == 0 {
        Some("/dev/video5")
    } else if candidate == 1 {
        Some("/dev/video0")
    } else {
        None
    }
}

} // verus!
