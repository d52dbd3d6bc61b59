//! MJPEG capture: frames, the sources they come from, decoding and the handoffs between threads.
//!
//! - [`jpeg`] reads a frame's size out of its own start-of-frame header.
//! - [`layout`] tells the component layouts that the JPEG decoder can be handed.
//! - [`decoder`] turns a compressed frame into RGBA.
//! - [`handoff`] holds [`Slot`], the one-deep handoff between two threads.
//! - [`synthetic`] holds [`SyntheticSource`], the source that needs no hardware.
//! - [`v4l2`] holds the decisions of the real capture device.
//! - [`pipeline`] holds the capture and decode state machines.

use vstd::prelude::*;

use crate::clock::Nanos;
use crate::text;

pub mod decoder;
pub mod handoff;
pub mod jpeg;
pub mod laws;
pub mod layout;
pub mod pipeline;
pub mod synthetic;
pub mod v4l2;

pub use decoder::{DecodeError, Decoder};
pub use handoff::Slot;
pub use jpeg::JpegHeaderError;
pub use pipeline::{PipelineConfig, PipelineState, PipelineStats};
pub use synthetic::SyntheticSource;
pub use v4l2::{BytesUsedStats, V4l2Opener, V4l2Source};

verus! {

/// The widest frame that is accepted from a start-of-frame header.
///
/// The header is untrusted bytes off a USB link. This is a sanity ceiling rather than a format
/// check: the largest mode the device advertises is 3840x2160.
pub const MAX_WIDTH: u32 = 4096;

/// The tallest frame that is accepted from a start-of-frame header.
pub const MAX_HEIGHT: u32 = 2304;

/// The largest RGBA output that an acceptable frame can require: `MAX_WIDTH * MAX_HEIGHT * 4`.
pub const MAX_RGBA_BYTES: usize = 37_748_736;

/// Whether a size is inside the ceiling.
pub open spec fn in_range(width: u32, height: u32) -> bool {
    width <= MAX_WIDTH && height <= MAX_HEIGHT
}

/// Whether a start-of-frame header's dimensions are inside the ceiling.
pub fn dimensions_in_range(width: u32, height: u32) -> (r: bool)
    ensures
        r == in_range(width, height),
{
    width <= MAX_WIDTH && height <= MAX_HEIGHT
}

/// One compressed frame, which owns its bytes.
#[derive(Debug)]
pub struct CompressedFrame {
    /// The complete JPEG.
    pub jpeg: Vec<u8>,
    /// Width from this frame's own start-of-frame header.
    pub width: u32,
    /// Height from this frame's own start-of-frame header.
    pub height: u32,
    /// When the frame was captured, on the monotonic clock.
    pub captured_at: Nanos,
    /// The device's buffer sequence counter. Advisory only.
    pub sequence: u32,
}

/// One decoded frame: RGBA, eight bits each.
///
/// `captured_at` and `sequence` are those of the frame it was decoded from, so that freshness is
/// measured from capture and not from decode.
#[derive(Debug)]
pub struct DecodedFrame {
    /// `width * height * 4` bytes.
    pub rgba: Vec<u8>,
    pub width: u32,
    pub height: u32,
    pub captured_at: Nanos,
    pub sequence: u32,
}

impl DecodedFrame {
    /// Whether the pixels are as many as the dimensions say.
    pub open spec fn well_formed(&self) -> bool {
        self.rgba@.len() == self.width * self.height * 4
    }

    /// A frame of no pixels.
    pub fn empty() -> (r: DecodedFrame)
        ensures
            r.rgba@ == Seq::<u8>::empty(),
            r.width == 0,
            r.height == 0,
            r.captured_at == 0,
            r.sequence == 0,
            r.well_formed(),
    {
        DecodedFrame { rgba: Vec::new(), width: 0, height: 0, captured_at: 0, sequence: 0 }
    }

    /// How many bytes a frame of this size carries.
    pub fn expected_len(width: u32, height: u32) -> (n: usize)
        requires
            width * height * 4 <= usize::MAX,
        ensures
            n == width * height * 4,
    {
        proof {
            assert(width * height <= width * height * 4) by (nonlinear_arith);
        }
        width as usize * height as usize * 4
    }
}

impl Default for DecodedFrame {
    fn default() -> (r: DecodedFrame)
        ensures
            r.rgba@ == Seq::<u8>::empty(),
            r.width == 0,
            r.height == 0,
            r.captured_at == 0,
            r.sequence == 0,
    {
        DecodedFrame::empty()
    }
}

/// What the operating system said of a call that failed.
#[derive(Debug)]
pub struct IoError {
    /// The error number, where there was one.
    pub errno: Option<i32>,
    /// Whether the error says that a time limit passed.
    pub timed_out: bool,
    /// The error in words.
    pub text: String,
}

/// Why a frame did not arrive.
#[derive(Debug)]
pub enum CaptureError {
    /// The node is gone.
    Disconnected,
    /// No buffer became ready within the dequeue timeout. The capture stalled, which is no
    /// evidence that the signal is gone.
    Timeout(Nanos),
    /// A frame arrived and is not usable.
    BadFrame(String),
    /// A device error that may pass.
    Io(IoError),
    /// The requested configuration was refused or silently altered.
    Config(String),
}

impl CaptureError {
    /// The message that this error is reported with.
    pub open spec fn words(&self) -> Seq<char> {
        match self {
            CaptureError::Disconnected => "capture device disconnected"@,
            CaptureError::Timeout(after) => "no frame within "@ + text::duration(*after as nat),
            CaptureError::BadFrame(what) => "unusable frame: "@ + what@,
            CaptureError::Io(e) => "capture I/O error: "@ + e.text@,
            CaptureError::Config(what) => "capture configuration: "@ + what@,
        }
    }

    /// The error in words.
    pub fn text(&self) -> (s: String)
        ensures
            s@ == self.words(),
    {
        match self {
            CaptureError::Disconnected => "capture device disconnected".to_owned(),
            CaptureError::Timeout(after) => {
                let mut s = "no frame within ".to_owned();
                text::push_duration(&mut s, *after);
                s
            },
            CaptureError::BadFrame(what) => "unusable frame: ".to_owned().concat(what.as_str()),
            CaptureError::Io(e) => "capture I/O error: ".to_owned().concat(e.text.as_str()),
            CaptureError::Config(what) => "capture configuration: ".to_owned().concat(
                what.as_str(),
            ),
        }
    }
}

/// A source of compressed frames.
pub trait FrameSource: Send {
    /// Waits for the next frame, or fails.
    ///
    /// A stall has to surface as [`CaptureError::Timeout`] rather than as a hang.
    fn next_frame(&mut self) -> Result<CompressedFrame, CaptureError>;

    /// A one-line description for messages.
    fn describe(&self) -> String;

    /// Stops and restarts streaming on the same device, without reopening it.
    ///
    /// A source that cannot stall has nothing to restart, so the default does nothing and
    /// succeeds.
    fn restart(&mut self) -> (r: Result<(), CaptureError>)
        default_ensures
            r is Ok,
            &*final(self) == &*old(self),
    {
        Ok(())
    }

    /// The dimensions that this source negotiated with the device, if it negotiated any.
    ///
    /// Never a source of frame dimensions: it is the other half of a comparison with them. It is
    /// read once per device open.
    fn negotiated_dimensions(&self) -> (r: Option<(u32, u32)>)
        default_ensures
            r is None,
    {
        None
    }
}

/// Produces a fresh [`FrameSource`] after the previous one was lost.
///
/// Failure is the normal case while a device is coming back: an implementation reports it and is
/// called again.
pub trait SourceOpener: Send {
    /// Opens the device and starts streaming, or says why not.
    fn open(&mut self) -> Result<Box<dyn FrameSource>, CaptureError>;

    /// A one-line description of what would be opened. It must work with no device present.
    fn describe(&self) -> String;

    /// Changes the mode that the next [`SourceOpener::open`] negotiates. `false` says that this
    /// opener cannot renegotiate.
    fn set_format(&mut self, width: u32, height: u32, fps: u32) -> (r: bool)
        default_ensures
            !r,
            &*final(self) == &*old(self),
    {
        false
    }
}

} // verus!
