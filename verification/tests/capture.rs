//! Frames: headers, decoding, the handoff, the sources and the pipeline.

use nanokvm::capture::decoder::{ColorSpace, JpegHeaders};
use nanokvm::capture::handoff::TakeStep;
use nanokvm::capture::jpeg::dimensions;
use nanokvm::capture::pipeline::{
    capture_loop, decode_loop, decode_next, error_kind, nap_piece, open_detached, Capture,
    DecodeStep, FormatVerdict, FormatWatch, LoopAction, LoopStart, OnceOpener, OpenWait, OpenWord,
    ReconnectEvent, ReconnectStep, RestartOutcome, Shared, Step, StepEnd, BACKOFF, BACKOFF_SLOW,
};
use nanokvm::capture::synthetic::{frame_files, over_ceiling_text};
use nanokvm::capture::v4l2::{
    check_buffers, check_format, check_interval, copy_out, enumerate_modes, expired,
    granted_buffers, judge, map_io, now_monotonic, poll_millis, poll_readable,
    timestamp_to_duration, BufferProbe, FormatReply, FrameCall, IntervalReply, OpenCall, OpenReply,
    OpenStep, PollReply, PollStep,
};
use nanokvm::capture::{
    decoder, dimensions_in_range, BytesUsedStats, CaptureError, CompressedFrame, DecodeError,
    DecodedFrame, Decoder, FrameSource, IoError, JpegHeaderError, PipelineConfig, PipelineState,
    Slot, SourceOpener, SyntheticSource, V4l2Opener, V4l2Source, MAX_HEIGHT, MAX_RGBA_BYTES,
    MAX_WIDTH,
};
use nanokvm::clock::{Nanos, MILLISECOND, SECOND};

/// A whole baseline JPEG of one grey, any size, with `tag` in a segment of its own.
fn grey_tagged(width: u16, height: u16, tag: u8) -> Vec<u8> {
    let mut v = vec![0xFF, 0xD8];
    v.extend_from_slice(&[0xFF, 0xE0, 0x00, 0x04, 0xAA, tag]);
    v.extend_from_slice(&[0xFF, 0xDB, 0x00, 0x43, 0x00]);
    v.extend_from_slice(&[1u8; 64]);
    v.extend_from_slice(&[0xFF, 0xC0, 0x00, 0x11, 0x08]);
    v.extend_from_slice(&height.to_be_bytes());
    v.extend_from_slice(&width.to_be_bytes());
    v.extend_from_slice(&[0x03, 1, 0x11, 0, 2, 0x11, 0, 3, 0x11, 0]);
    for class in [0x00u8, 0x10] {
        v.extend_from_slice(&[0xFF, 0xC4, 0x00, 0x14, class, 1]);
        v.extend_from_slice(&[0u8; 15]);
        v.push(0);
    }
    v.extend_from_slice(&[0xFF, 0xDA, 0x00, 0x0C, 0x03, 1, 0, 2, 0, 3, 0, 0, 0x3F, 0]);
    let blocks = (usize::from(width) + 7) / 8 * ((usize::from(height) + 7) / 8);
    let bits = blocks * 6;
    v.extend(std::iter::repeat(0u8).take(bits / 8));
    if bits % 8 != 0 {
        v.push(0xFFu8 >> (bits % 8));
    }
    v.extend_from_slice(&[0xFF, 0xD9]);
    v
}

fn grey(width: u16, height: u16) -> Vec<u8> {
    grey_tagged(width, height, 0xBB)
}

fn frame_from(bytes: Vec<u8>, sequence: u32) -> CompressedFrame {
    let (width, height) = dimensions(&bytes).expect("a header");
    CompressedFrame {
        jpeg: bytes,
        width,
        height,
        captured_at: u128::from(sequence) * MILLISECOND,
        sequence,
    }
}

/// A frame whose header was rewritten to claim a size.
fn frame_claiming(width: u16, height: u16) -> CompressedFrame {
    let mut bytes = grey(1920, 1080);
    patch_sof(&mut bytes, height, width);
    frame_from(bytes, 0)
}

fn patch_sof(bytes: &mut [u8], height: u16, width: u16) {
    let mut at = 2usize;
    loop {
        assert_eq!(bytes[at], 0xFF, "lost the marker stream at {at}");
        let marker = bytes[at + 1];
        let len = u16::from_be_bytes([bytes[at + 2], bytes[at + 3]]) as usize;
        let is_sof = (0xC0..=0xCF).contains(&marker)
            && marker != 0xC4
            && marker != 0xC8
            && marker != 0xCC;
        if is_sof {
            bytes[at + 5..at + 7].copy_from_slice(&height.to_be_bytes());
            bytes[at + 7..at + 9].copy_from_slice(&width.to_be_bytes());
            return;
        }
        at += 2 + len;
    }
}

fn two_distinct_frames() -> Vec<Vec<u8>> {
    vec![grey_tagged(1920, 1080, 1), grey_tagged(1920, 1080, 2)]
}

fn io(errno: i32) -> IoError {
    IoError {
        errno: Some(errno),
        timed_out: false,
        text: std::io::Error::from_raw_os_error(errno).to_string(),
    }
}

fn interval(numerator: u32, denominator: u32, rate: &str) -> IntervalReply {
    IntervalReply {
        numerator,
        denominator,
        rate: rate.to_string(),
    }
}

// ---- JPEG headers ----------------------------------------------------------------------------

#[test]
fn a_frame_truncated_after_the_header_still_parses() {
    let bytes = grey(1920, 1080);
    let cut = bytes.len() * 6 / 10;
    assert_eq!(dimensions(&bytes[..cut]), Ok((1920, 1080)));
}

#[test]
fn a_frame_truncated_inside_the_header_is_an_error_not_a_panic() {
    let bytes = grey(1920, 1080);
    for cut in [0usize, 1, 2, 3, 8, 40, 70, 77, 80, 83] {
        let r = dimensions(&bytes[..cut]);
        assert!(r.is_err(), "cut={cut} unexpectedly parsed as {r:?}");
    }
}

#[test]
fn jpeg_garbage_is_an_error() {
    assert_eq!(dimensions(&[]), Err(JpegHeaderError::Truncated));
    assert!(matches!(
        dimensions(b"not a jpeg at all"),
        Err(JpegHeaderError::NotAMarker { .. })
    ));
    assert!(matches!(
        dimensions(&[0xFF, 0xE0, 0x00, 0x04, 0x00, 0x00]),
        Err(JpegHeaderError::NotJpeg)
    ));
    assert!(matches!(
        dimensions(&[0xFF, 0xD8, 0xFF, 0xD9]),
        Err(JpegHeaderError::NoStartOfFrame { stopped_at: 0xD9 })
    ));
    assert!(matches!(
        dimensions(&[0xFF, 0xD8, 0xFF, 0xDA, 0x00, 0x02]),
        Err(JpegHeaderError::NoStartOfFrame { stopped_at: 0xDA })
    ));
}

#[test]
fn a_segment_length_below_two_is_rejected_rather_than_looping() {
    assert!(matches!(
        dimensions(&[0xFF, 0xD8, 0xFF, 0xE0, 0x00, 0x00, 0xFF, 0xD9]),
        Err(JpegHeaderError::BadSegmentLength { length: 0, .. })
    ));
    assert!(matches!(
        dimensions(&[0xFF, 0xD8, 0xFF, 0xE0, 0x00, 0x01, 0xFF, 0xD9]),
        Err(JpegHeaderError::BadSegmentLength { length: 1, .. })
    ));
}

fn synthetic_header() -> Vec<u8> {
    let mut v = vec![0xFF, 0xD8];
    v.extend_from_slice(&[0xFF, 0xE0, 0x00, 0x04, 0xAA, 0xBB]);
    v.extend_from_slice(&[0xFF, 0xDB, 0x00, 0x03, 0x00]);
    v.extend_from_slice(&[
        0xFF, 0xC0, 0x00, 0x0B, 0x08, 0x01, 0xE0, 0x02, 0x80, 0x01, 0x01, 0x11, 0x00,
    ]);
    v
}

#[test]
fn synthetic_header_reads_height_then_width() {
    assert_eq!(dimensions(&synthetic_header()), Ok((640, 480)));
}

#[test]
fn leading_fill_bytes_before_soi_are_skipped() {
    for pad in 1..8usize {
        let mut v = vec![0xFFu8; pad];
        v.extend_from_slice(&synthetic_header());
        assert_eq!(dimensions(&v), Ok((640, 480)), "pad={pad}");
    }
}

#[test]
fn fill_bytes_between_markers_are_skipped() {
    let mut v = vec![0xFF, 0xD8];
    v.extend_from_slice(&[0xFF, 0xFF, 0xFF]);
    v.extend_from_slice(&[0xFF, 0xE0, 0x00, 0x04, 0xAA, 0xBB]);
    v.extend_from_slice(&[0xFF, 0xFF]);
    v.extend_from_slice(&[
        0xFF, 0xC1, 0x00, 0x0B, 0x08, 0x01, 0xE0, 0x02, 0x80, 0x01, 0x01, 0x11, 0x00,
    ]);
    assert_eq!(dimensions(&v), Ok((640, 480)));
}

#[test]
fn restart_and_tem_markers_carry_no_length() {
    let mut v = vec![0xFF, 0xD8, 0xFF, 0x01, 0xFF, 0xD0, 0xFF, 0xD7];
    v.extend_from_slice(&[
        0xFF, 0xC2, 0x00, 0x0B, 0x08, 0x01, 0xE0, 0x02, 0x80, 0x01, 0x01, 0x11, 0x00,
    ]);
    assert_eq!(dimensions(&v), Ok((640, 480)));
}

#[test]
fn dht_in_the_sof_range_is_skipped_not_read_as_a_frame_header() {
    let mut v = vec![0xFF, 0xD8];
    v.extend_from_slice(&[0xFF, 0xC4, 0x00, 0x09, 1, 2, 3, 4, 5, 6, 7]);
    v.extend_from_slice(&[
        0xFF, 0xC0, 0x00, 0x0B, 0x08, 0x01, 0xE0, 0x02, 0x80, 0x01, 0x01, 0x11, 0x00,
    ]);
    assert_eq!(dimensions(&v), Ok((640, 480)));
}

#[test]
fn zero_dimensions_are_refused() {
    let mut v = vec![0xFF, 0xD8];
    v.extend_from_slice(&[
        0xFF, 0xC0, 0x00, 0x0B, 0x08, 0x00, 0x00, 0x02, 0x80, 0x01, 0x01, 0x11, 0x00,
    ]);
    assert!(matches!(
        dimensions(&v),
        Err(JpegHeaderError::ZeroDimension { .. })
    ));
}

#[test]
fn every_prefix_of_a_real_frame_is_handled() {
    let bytes = grey(1920, 1080);
    let whole = dimensions(&bytes);
    for cut in 0..bytes.len().min(2048) {
        let r = dimensions(&bytes[..cut]);
        assert!(r == whole || r == Err(JpegHeaderError::Truncated), "{cut}: {r:?}");
    }
}

// ---- decoding --------------------------------------------------------------------------------

#[test]
fn options_are_the_a19_settings() {
    let d = Decoder::new();
    assert!(d.options().strict_mode(), "strict mode must be on");
    assert_eq!(d.options().jpeg_get_out_colorspace(), ColorSpace::RGBA);
}

#[test]
fn options_carry_the_dimension_ceiling_not_zunes_16384_default() {
    let d = Decoder::new();
    assert_eq!(d.options().max_width(), MAX_WIDTH as usize);
    assert_eq!(d.options().max_height(), MAX_HEIGHT as usize);
    assert!(d.options().max_width() < 16384);
}

#[test]
fn a_sof_over_the_ceiling_is_refused_before_the_scratch_is_allocated() {
    let mut dec = Decoder::new();
    let mut out = DecodedFrame::empty();

    let good = frame_from(grey(1920, 1080), 0);
    dec.decode(&good, &mut out).expect("honest frame");
    let honest_len = out.rgba.len();
    let honest_cap = out.rgba.capacity();
    assert_eq!(honest_len, 1920 * 1080 * 4);

    let big = frame_claiming(4096, 4096);
    let r = dec.decode(&big, &mut out);
    assert!(
        matches!(
            r,
            Err(DecodeError::DimensionsTooLarge {
                width: 4096,
                height: 4096,
                ..
            })
        ),
        "a 4096x4096 SOF decoded as {r:?}"
    );
    assert_eq!(out.rgba.capacity(), honest_cap);
    assert!(out.rgba.capacity() <= MAX_RGBA_BYTES);
    assert_eq!(out.rgba.len(), honest_len, "the scratch was resized");
    assert_eq!((out.width, out.height), (1920, 1080));

    dec.decode(&good, &mut out).expect("decoder still works");
    assert_eq!((out.width, out.height), (1920, 1080));
    assert_eq!(out.rgba.len(), 1920 * 1080 * 4);
    assert_eq!(out.rgba.capacity(), honest_cap, "no reallocation happened");
}

#[test]
fn zunes_own_16384_ceiling_is_never_reached() {
    let mut dec = Decoder::new();
    let mut out = DecodedFrame::empty();
    let r = dec.decode(&frame_claiming(16384, 16384), &mut out);
    assert!(
        matches!(r, Err(DecodeError::DimensionsTooLarge { .. })),
        "{r:?}"
    );
    assert_eq!(out.rgba.capacity(), 0, "something was allocated anyway");
}

#[test]
fn the_largest_advertised_mode_is_inside_the_ceiling() {
    assert!(dimensions_in_range(3840, 2160));
    assert!(dimensions_in_range(MAX_WIDTH, MAX_HEIGHT));
    assert!(!dimensions_in_range(MAX_WIDTH + 1, MAX_HEIGHT));
    assert!(!dimensions_in_range(MAX_WIDTH, MAX_HEIGHT + 1));

    let mut dec = Decoder::new();
    let mut out = DecodedFrame::empty();
    let f = frame_from(grey(3840, 2160), 0);
    dec.decode(&f, &mut out).expect("4K decodes");
    assert_eq!((out.width, out.height), (3840, 2160));
    assert!(out.rgba.capacity() <= MAX_RGBA_BYTES);
}

#[test]
fn one_row_over_the_ceiling_is_refused() {
    let mut dec = Decoder::new();
    let mut out = DecodedFrame::empty();
    let r = dec.decode(&frame_claiming(64, (MAX_HEIGHT + 1) as u16), &mut out);
    assert!(
        matches!(r, Err(DecodeError::DimensionsTooLarge { .. })),
        "{r:?}"
    );
    let r = dec.decode(&frame_claiming((MAX_WIDTH + 1) as u16, 64), &mut out);
    assert!(
        matches!(r, Err(DecodeError::DimensionsTooLarge { .. })),
        "{r:?}"
    );
}

#[test]
fn every_frame_of_a_sequence_decodes_to_its_size() {
    let mut dec = Decoder::new();
    let mut out = DecodedFrame::empty();
    for i in 0..4u32 {
        let frame = frame_from(grey_tagged(1920, 1080, i as u8), i);
        dec.decode(&frame, &mut out).expect("a whole frame");
        assert_eq!((out.width, out.height), (1920, 1080));
        assert_eq!(out.rgba.len(), 1920 * 1080 * 4);
        assert_eq!(&out.rgba[..4], &[128, 128, 128, 255]);
        assert_eq!(out.sequence, i);
        assert_eq!(out.captured_at, u128::from(i) * MILLISECOND);
    }
}

#[test]
fn the_output_buffer_is_reused_across_frames() {
    let mut dec = Decoder::new();
    let mut out = DecodedFrame::empty();
    dec.decode(&frame_from(grey(1920, 1080), 0), &mut out)
        .expect("first decode");
    let ptr = out.rgba.as_ptr();
    let cap = out.rgba.capacity();
    for i in 0..4u32 {
        let f = frame_from(grey_tagged(1920, 1080, i as u8), i);
        dec.decode(&f, &mut out).expect("decode");
    }
    assert_eq!(ptr, out.rgba.as_ptr(), "buffer was reallocated");
    assert_eq!(cap, out.rgba.capacity());
}

#[test]
fn a_truncated_frame_is_an_error_not_a_partial_image() {
    let mut dec = Decoder::new();
    let mut out = DecodedFrame::empty();
    let bytes = grey(1920, 1080);
    let cut = bytes.len() * 6 / 10;
    let frame = frame_from(bytes[..cut].to_vec(), 7);
    let r = dec.decode(&frame, &mut out);
    assert!(
        matches!(r, Err(DecodeError::Jpeg(_))),
        "truncated frame decoded as {r:?}"
    );
}

#[test]
fn several_truncation_points_all_error() {
    let mut dec = Decoder::new();
    let mut out = DecodedFrame::empty();
    let bytes = grey(1920, 1080);
    for pct in [30usize, 50, 60, 80, 95, 99] {
        let cut = bytes.len() * pct / 100;
        let frame = frame_from(bytes[..cut].to_vec(), 0);
        assert!(
            dec.decode(&frame, &mut out).is_err(),
            "{pct}% of the frame decoded without error"
        );
    }
}

#[test]
fn a_lying_header_dimension_is_refused() {
    let mut dec = Decoder::new();
    let mut out = DecodedFrame::empty();
    let mut frame = frame_from(grey(1920, 1080), 0);
    frame.width = 1280;
    assert!(matches!(
        dec.decode(&frame, &mut out),
        Err(DecodeError::DimensionMismatch { .. })
    ));
}

#[test]
fn decoder_garbage_is_an_error() {
    let mut dec = Decoder::new();
    let mut out = DecodedFrame::empty();
    let frame = CompressedFrame {
        jpeg: vec![0xFF; 512],
        width: 1920,
        height: 1080,
        captured_at: 0,
        sequence: 0,
    };
    assert!(dec.decode(&frame, &mut out).is_err());
}

#[test]
fn headers_are_held_against_the_frame() {
    let ok = decoder::check_headers(
        8,
        8,
        Ok(JpegHeaders {
            dimensions: Some((8, 8)),
            buffer_size: Some(256),
        }),
    );
    assert!(matches!(ok, Ok(256)));
    let e = decoder::check_headers(
        8,
        8,
        Ok(JpegHeaders {
            dimensions: Some((8, 8)),
            buffer_size: Some(192),
        }),
    )
    .expect_err("RGB");
    assert_eq!(e.text(), "decoder wants 192 bytes for 8x8 RGBA, expected 256");
    let e = decoder::check_headers(
        8,
        8,
        Ok(JpegHeaders {
            dimensions: None,
            buffer_size: None,
        }),
    )
    .expect_err("nothing");
    assert_eq!(e.text(), "decoder reported no dimensions");
    let e = decoder::check_headers(8, 8, Err("bad".to_string())).expect_err("an error");
    assert_eq!(e.text(), "jpeg decode failed: bad");
    let e = decoder::check_headers(
        8,
        8,
        Ok(JpegHeaders {
            dimensions: Some((16, 8)),
            buffer_size: Some(512),
        }),
    )
    .expect_err("another size");
    assert_eq!(
        e.text(),
        "dimension disagreement: header says 8x8, decoder says 16x8"
    );
}

// ---- the handoff -----------------------------------------------------------------------------

#[test]
fn put_on_an_empty_slot_displaces_nothing() {
    let mut s: Slot<u32> = Slot::new();
    assert_eq!(s.put(1), None);
    assert_eq!(s.dropped(), 0);
}

#[test]
fn put_on_a_full_slot_displaces_and_counts() {
    let mut s: Slot<u32> = Slot::new();
    assert_eq!(s.put(1), None);
    assert_eq!(
        s.put(2),
        Some(1),
        "the OLD value comes back, not the new one"
    );
    assert_eq!(s.put(3), Some(2));
    assert_eq!(s.dropped(), 2);
    assert_eq!(s.take(), Some(3), "the newest value is what is pending");
}

#[test]
fn take_empties_the_slot() {
    let mut s: Slot<u32> = Slot::new();
    s.put(9);
    assert!(s.is_pending());
    assert_eq!(s.take(), Some(9));
    assert!(!s.is_pending());
    assert_eq!(s.take(), None);
    assert_eq!(s.dropped(), 0);
}

/// Waits as a consumer does, on a clock that jumps to the end of each wait, and says how long.
fn wait_take(s: &mut Slot<u32>, timeout: Nanos) -> (Option<u32>, Nanos) {
    let mut now: Nanos = 0;
    let deadline = now.checked_add(timeout);
    loop {
        match s.wait_take(timeout, deadline, now) {
            TakeStep::Done(v) => return (v, now),
            TakeStep::Wait(d) => now += d,
        }
    }
}

#[test]
fn wait_take_returns_immediately_when_a_value_is_already_pending() {
    let mut s: Slot<u32> = Slot::new();
    s.put(4);
    let (v, waited) = wait_take(&mut s, 30 * SECOND);
    assert_eq!(v, Some(4));
    assert!(waited < SECOND);
}

#[test]
fn wait_take_times_out_and_says_so() {
    let mut s: Slot<u32> = Slot::new();
    let (v, waited) = wait_take(&mut s, 30 * MILLISECOND);
    assert_eq!(v, None);
    assert!(waited >= 25 * MILLISECOND);
    assert!(!s.is_closed(), "a timeout must not look like a close");
}

#[test]
fn put_on_a_closed_slot_hands_the_value_back_uncounted() {
    let mut s: Slot<u32> = Slot::new();
    s.close();
    assert_eq!(s.put(5), Some(5));
    assert_eq!(s.dropped(), 0);
    assert!(s.is_closed());
    assert_eq!(s.take(), None);
}

#[test]
fn close_is_idempotent_and_drops_the_pending_value() {
    let mut s: Slot<u32> = Slot::new();
    s.put(1);
    s.close();
    s.close();
    assert_eq!(s.take(), None);
}

#[test]
fn values_are_delivered_once_or_dropped_once_and_in_order() {
    let mut s: Slot<u32> = Slot::new();
    let mut taken: Vec<u32> = Vec::new();
    let mut displaced: Vec<u32> = Vec::new();
    for v in 1..=500u32 {
        if let Some(old) = s.put(v) {
            displaced.push(old);
        }
        if v % 3 == 0 {
            taken.push(s.take().expect("pending"));
        }
    }
    taken.extend(s.take());
    assert_eq!(taken.len() + displaced.len(), 500);
    assert!(taken.windows(2).all(|w| w[0] < w[1]));
    assert_eq!(s.dropped(), displaced.len() as u64);
    let mut all = taken;
    all.extend_from_slice(&displaced);
    all.sort_unstable();
    all.dedup();
    assert_eq!(all.len(), 500);
}

// ---- sources ---------------------------------------------------------------------------------

#[test]
fn the_default_restart_succeeds_and_does_nothing() {
    struct Inert;
    impl FrameSource for Inert {
        fn next_frame(&mut self) -> Result<CompressedFrame, CaptureError> {
            Err(CaptureError::Timeout(0))
        }
        fn describe(&self) -> String {
            "inert".to_string()
        }
    }
    let mut s = Inert;
    assert!(s.restart().is_ok());
    assert!(s.restart().is_ok(), "restart must be repeatable");
    assert_eq!(s.negotiated_dimensions(), None);
}

/// A clock that a paced source moves on.
struct Clock(Nanos);

impl Clock {
    fn frame(&mut self, s: &mut SyntheticSource) -> Result<CompressedFrame, CaptureError> {
        self.0 += s.pace(self.0);
        s.next_frame(self.0)
    }
}

#[test]
fn frames_replay_in_order_and_loop() {
    let frames = two_distinct_frames();
    let mut s = SyntheticSource::new(frames.clone(), 0).expect("source");
    let mut clock = Clock(SECOND);
    for i in 0..5u32 {
        let f = clock.frame(&mut s).expect("frame");
        assert_eq!(f.sequence, i);
        assert_eq!(f.jpeg, frames[i as usize % 2]);
        assert_eq!((f.width, f.height), (1920, 1080));
    }
    assert_eq!(s.delivered(), 5);
}

#[test]
fn a_delivered_frame_survives_the_ring_being_overwritten() {
    let frames = two_distinct_frames();
    assert_ne!(frames[0], frames[1]);
    let mut s = SyntheticSource::new(frames.clone(), 0).expect("source");
    let mut clock = Clock(SECOND);

    let held = clock.frame(&mut s).expect("frame");
    let before = held.jpeg.clone();
    assert_eq!(before, frames[0]);
    for _ in 0..8 {
        clock.frame(&mut s).expect("frame");
    }
    assert_eq!(held.jpeg, before, "the held frame's bytes changed");
    assert_eq!(held.jpeg, frames[0], "the held frame is no longer frame 0");
    assert_eq!(held.sequence, 0);
}

#[test]
fn a_scripted_failure_fires_once_and_delivery_resumes() {
    let mut s = SyntheticSource::new(two_distinct_frames(), 0).expect("source");
    let mut clock = Clock(SECOND);
    s.fail_after(2, CaptureError::Timeout(250 * MILLISECOND));

    assert!(clock.frame(&mut s).is_ok());
    assert!(clock.frame(&mut s).is_ok());
    assert!(matches!(
        clock.frame(&mut s),
        Err(CaptureError::Timeout(_))
    ));
    let resumed = clock.frame(&mut s).expect("delivery resumes");
    assert_eq!(resumed.sequence, 2, "a failure must not consume a sequence");
    assert_eq!(s.delivered(), 3);
}

#[test]
fn repeated_scripts_at_the_same_point_fire_consecutively() {
    let mut s = SyntheticSource::new(two_distinct_frames(), 0).expect("source");
    let mut clock = Clock(SECOND);
    for _ in 0..3 {
        s.fail_after(1, CaptureError::Timeout(10 * MILLISECOND));
    }
    assert!(clock.frame(&mut s).is_ok());
    for i in 0..3 {
        assert!(
            matches!(clock.frame(&mut s), Err(CaptureError::Timeout(_))),
            "failure {i} did not fire"
        );
    }
    assert!(clock.frame(&mut s).is_ok());
}

#[test]
fn a_disconnect_can_be_scripted() {
    let mut s = SyntheticSource::new(two_distinct_frames(), 0).expect("source");
    s.fail_after(0, CaptureError::Disconnected);
    assert!(matches!(
        Clock(0).frame(&mut s),
        Err(CaptureError::Disconnected)
    ));
}

#[test]
fn an_empty_frame_list_is_refused() {
    assert!(matches!(
        SyntheticSource::new(Vec::new(), 0),
        Err(CaptureError::Config(_))
    ));
}

#[test]
fn a_non_jpeg_frame_is_a_bad_frame() {
    let mut s = SyntheticSource::new(vec![b"not a jpeg".to_vec()], 0).expect("source");
    assert!(matches!(
        Clock(0).frame(&mut s),
        Err(CaptureError::BadFrame(_))
    ));
}

#[test]
fn pacing_holds_the_nominal_interval() {
    let mut s = SyntheticSource::new(two_distinct_frames(), 20 * MILLISECOND).expect("source");
    let mut clock = Clock(SECOND);
    for _ in 0..4 {
        clock.frame(&mut s).expect("frame");
    }
    assert!(
        clock.0 - SECOND >= 55 * MILLISECOND,
        "paced source ran too fast: {}",
        clock.0 - SECOND
    );
}

#[test]
fn captured_at_is_monotonic_non_decreasing() {
    let mut s = SyntheticSource::new(two_distinct_frames(), 0).expect("source");
    let mut clock = Clock(SECOND);
    let mut last: Nanos = 0;
    for _ in 0..10 {
        let f = clock.frame(&mut s).expect("frame");
        assert!(f.captured_at >= last);
        last = f.captured_at;
        clock.0 += 1;
    }
}

#[test]
fn captured_at_is_on_the_documented_clock_not_a_relative_duration() {
    let mut s = SyntheticSource::new(two_distinct_frames(), 5 * MILLISECOND).expect("source");
    let mut clock = Clock(7_000 * SECOND);
    for _ in 0..3 {
        let f = clock.frame(&mut s).expect("frame");
        let age = clock.0 - f.captured_at;
        assert!(age < SECOND, "age came out as {age}");
        assert!(f.captured_at > 0);
    }
}

#[test]
fn scripted_failures_are_paced_like_frames() {
    let interval = 20 * MILLISECOND;
    let mut s = SyntheticSource::new(two_distinct_frames(), interval).expect("source");
    let mut clock = Clock(SECOND);
    clock.frame(&mut s).expect("frame");
    for _ in 0..3 {
        s.fail_after(1, CaptureError::Timeout(50 * MILLISECOND));
    }
    let t = clock.0;
    for i in 0..3 {
        assert!(
            matches!(clock.frame(&mut s), Err(CaptureError::Timeout(_))),
            "failure {i} did not fire"
        );
    }
    let gap = clock.0 - t;
    assert!(
        gap >= interval * 2,
        "three scripted failures took {gap}; they are not paced"
    );
}

#[test]
fn a_header_over_the_ceiling_is_a_bad_frame() {
    let mut bytes = grey(1920, 1080);
    patch_sof(&mut bytes, 4096, 4096);
    let mut s = SyntheticSource::new(vec![bytes], 0).expect("source");
    let r = Clock(0).frame(&mut s);
    assert!(
        matches!(&r, Err(CaptureError::BadFrame(m)) if m.contains("ceiling")),
        "{r:?}"
    );
    assert_eq!(s.delivered(), 0, "the oversized frame counted as delivered");
    assert_eq!(
        over_ceiling_text(4096, 4096),
        "header claims 4096x4096, over the 4096x2304 ceiling"
    );
}

#[test]
fn a_source_carries_its_label_and_its_frames() {
    let mut s = SyntheticSource::new(two_distinct_frames(), 0).expect("source");
    s.set_label("desk".to_string());
    assert_eq!(s.describe(), "desk");
    assert_eq!(s.source_frames().len(), 2);
    s.set_interval(5);
    assert_eq!(s.pace(100), 0);
}

// ---- V4L2 ------------------------------------------------------------------------------------

#[test]
fn the_first_record_sets_min_rather_than_leaving_it_at_zero() {
    let mut s = BytesUsedStats::default();
    s.record(171_921);
    assert_eq!(s.min, 171_921);
}

#[test]
fn a_timestamp_converts_to_a_monotonic_duration() {
    assert_eq!(
        timestamp_to_duration(12_345, 678_901),
        12_345 * SECOND + 678_901 * 1_000
    );
}

#[test]
fn a_negative_timestamp_clamps_rather_than_wrapping() {
    assert_eq!(timestamp_to_duration(-1, -1), 0);
    assert_eq!(now_monotonic(2, 3), 2 * SECOND + 3);
    assert_eq!(now_monotonic(-2, 5_000_000_000), 999_999_999);
}

#[test]
fn enodev_is_disconnection_and_eio_is_not() {
    assert!(matches!(
        map_io(io(libc::ENODEV)),
        CaptureError::Disconnected
    ));
    assert!(matches!(map_io(io(libc::EIO)), CaptureError::Io(_)));
    assert!(matches!(map_io(io(libc::EINVAL)), CaptureError::Io(_)));
    assert!(matches!(
        map_io(IoError {
            errno: None,
            timed_out: true,
            text: "x".to_string()
        }),
        CaptureError::Timeout(_)
    ));
}

#[test]
fn a_hung_up_fd_is_disconnection_rather_than_a_ready_buffer() {
    let r = poll_readable(
        PollReply::Events(libc::POLLHUP | libc::POLLIN),
        Some(50 * MILLISECOND),
        0,
    );
    assert!(
        matches!(r, PollStep::Failed(CaptureError::Disconnected)),
        "POLLHUP classified as {r:?}"
    );
}

#[test]
fn a_closed_fd_is_disconnection_when_it_reports_pollnval() {
    let r = poll_readable(PollReply::Events(libc::POLLNVAL), None, 0);
    assert!(
        matches!(r, PollStep::Failed(CaptureError::Disconnected)),
        "POLLNVAL classified as {r:?}"
    );
}

#[test]
fn a_never_ready_fd_times_out_after_actually_waiting() {
    let timeout = 60 * MILLISECOND;
    assert_eq!(poll_millis(timeout, Some(timeout), 0), 60);
    let r = poll_readable(PollReply::Nothing, Some(timeout), timeout);
    assert!(matches!(r, PollStep::TimedOut), "{r:?}");
    let r = poll_readable(PollReply::Interrupted, Some(timeout), timeout / 2);
    assert!(matches!(r, PollStep::Again), "{r:?}");
}

#[test]
fn a_readable_fd_is_ready_even_with_an_overflowing_timeout() {
    assert!(matches!(
        poll_readable(PollReply::Events(libc::POLLIN), None, 0),
        PollStep::Ready
    ));
    assert_eq!(poll_millis(Nanos::MAX, None, 0), i32::MAX);
}

#[test]
fn an_error_on_the_stream_is_an_io_error() {
    let r = poll_readable(PollReply::Events(libc::POLLERR), None, 0);
    assert!(
        matches!(&r, PollStep::Failed(CaptureError::Io(e))
            if e.errno == Some(libc::EIO) && !e.timed_out && e.text == io(libc::EIO).text),
        "{r:?}"
    );
    let r = poll_readable(PollReply::Failed(io(libc::ENODEV)), None, 0);
    assert!(matches!(r, PollStep::Failed(CaptureError::Disconnected)), "{r:?}");
}

#[test]
fn an_overflowing_timeout_yields_no_deadline_rather_than_a_panic() {
    let now: Nanos = 10 * SECOND;
    assert!(now.checked_add(Nanos::MAX).is_none());
    assert!(!expired(None, now));
    assert!(expired(Some(now - MILLISECOND), now));
    assert!(!expired(Some(now + 60 * SECOND), now));
}

#[test]
fn opening_a_nonexistent_node_is_disconnection_not_a_panic() {
    let attempt = V4l2Source::open("/dev/video-nanokvm-absent".to_string(), 1920, 1080, 60)
        .expect("a rate");
    assert_eq!(attempt.call, OpenCall::Node);
    let r = attempt.advance(OpenReply::Failed(map_io(io(libc::ENOENT))));
    assert!(
        matches!(r, OpenStep::Failed(CaptureError::Disconnected)),
        "{r:?}"
    );
}

#[test]
fn an_opener_on_an_absent_node_describes_itself_and_reports_disconnection() {
    let opener = V4l2Opener::new("/dev/video-nanokvm-absent".to_string(), 1920, 1080, 60);
    let described = opener.describe();
    assert!(
        described.contains("/dev/video-nanokvm-absent") && described.contains("1920x1080"),
        "{described}"
    );
    assert_eq!(opener.path(), "/dev/video-nanokvm-absent");
    for _ in 0..2 {
        let attempt = opener.open().expect("a rate");
        let r = attempt.advance(OpenReply::Failed(map_io(io(libc::ENOENT))));
        assert!(matches!(r, OpenStep::Failed(CaptureError::Disconnected)));
    }
}

#[test]
fn a_zero_frame_rate_is_refused_before_any_ioctl() {
    let r = V4l2Source::open("/dev/video-nanokvm-absent".to_string(), 1920, 1080, 0);
    assert!(matches!(r, Err(CaptureError::Config(_))), "{r:?}");
}

fn advance(step: OpenStep, reply: OpenReply) -> OpenStep {
    match step {
        OpenStep::Call(attempt) => attempt.advance(reply),
        other => panic!("nothing left to call: {other:?}"),
    }
}

fn opened() -> V4l2Source {
    let attempt = V4l2Source::open("/dev/video4".to_string(), 1920, 1080, 60).expect("a rate");
    let step = attempt.advance(OpenReply::Done);
    let step = advance(
        step,
        OpenReply::Format(FormatReply {
            fourcc: "MJPG".to_string(),
            width: 1920,
            height: 1080,
        }),
    );
    let step = advance(step, OpenReply::Interval(interval(1, 30, "30.000 fps")));
    let step = advance(step, OpenReply::Interval(interval(1, 60, "60.000 fps")));
    match advance(step, OpenReply::Buffers(4)) {
        OpenStep::Opened(source) => source,
        other => panic!("not opened: {other:?}"),
    }
}

#[test]
fn a_source_is_opened_call_by_call() {
    let source = opened();
    assert_eq!(source.negotiated_format(), (1920, 1080));
    assert_eq!(source.negotiated_dimensions(), Some((1920, 1080)));
    assert_eq!(source.buffers(), 4);
    assert_eq!(source.stream_rebuilds(), 0);
    assert_eq!(
        source.describe(),
        "V4L2 /dev/video4 MJPG 1920x1080 @60 fps, 4 mmap buffers"
    );
}

#[test]
fn an_altered_configuration_is_refused() {
    let e = check_format(
        "/dev/video4",
        1920,
        1080,
        &FormatReply {
            fourcc: "YUYV".to_string(),
            width: 1920,
            height: 1080,
        },
    )
    .expect_err("another format");
    assert!(matches!(e, CaptureError::Config(_)));
    assert!(check_interval("/dev/video4", 60, &interval(1, 60, "60.000 fps")).is_ok());
    assert!(check_interval("/dev/video4", 60, &interval(1, 30, "30.000 fps")).is_err());
    assert!(check_buffers("/dev/video4", 2).is_ok());
    assert!(check_buffers("/dev/video4", 1).is_err());
    assert!(matches!(granted_buffers(0, Ok(())), BufferProbe::Next(1)));
    assert!(matches!(
        granted_buffers(4, Err(io(libc::EINVAL))),
        BufferProbe::Done(4)
    ));
}

#[test]
fn a_buffer_becomes_a_frame_or_a_complaint() {
    let bytes = grey(640, 480);
    let mut mapped = bytes.clone();
    mapped.extend_from_slice(&[0; 100]);
    let d = copy_out(&mapped, bytes.len() as u32, 5, 7, 0);
    let f = judge(d).expect("a frame");
    assert_eq!((f.width, f.height, f.sequence, f.captured_at), (640, 480, 7, 5));
    assert_eq!(f.jpeg, bytes);
    let empty = judge(copy_out(&mapped, 0, 5, 7, 0));
    assert!(matches!(empty, Err(CaptureError::BadFrame(_))), "{empty:?}");
    let long = judge(copy_out(&mapped, mapped.len() as u32 + 1, 5, 7, 0));
    assert!(matches!(long, Err(CaptureError::BadFrame(_))), "{long:?}");
}

#[test]
fn a_frame_is_fetched_call_by_call() {
    let mut source = opened();
    assert!(matches!(source.next_frame(), FrameCall::Poll));
    assert!(matches!(source.wait_readable(Ok(true)), FrameCall::Dequeue));
    let bytes = grey(640, 480);
    let d = copy_out(&bytes, bytes.len() as u32, 5, 7, 0x2000);
    match source.dequeue(Ok(d)) {
        FrameCall::Done(Ok(f)) => assert_eq!((f.width, f.height), (640, 480)),
        other => panic!("no frame: {other:?}"),
    }
    assert_eq!(source.bytes_stats().last, bytes.len() as u32);
    assert_eq!(source.last_flags(), 0x2000);
    match source.wait_readable(Ok(false)) {
        FrameCall::Done(Err(CaptureError::Timeout(t))) => assert_eq!(t, 250 * MILLISECOND),
        other => panic!("expected a timeout: {other:?}"),
    }
    source.force_rebuild_for_test();
    assert!(matches!(source.next_frame(), FrameCall::Rebuild));
    assert!(source.rebuild_stream(Ok(4)).is_ok());
    assert_eq!(source.stream_rebuilds(), 1);
    assert!(matches!(source.next_frame(), FrameCall::Poll));
    assert!(matches!(source.restart(), FrameCall::Rebuild));
}

#[test]
fn modes_are_offered_largest_first_and_once() {
    let sizes = vec![(640, 480), (1920, 1080), (0, 5), (640, 480), (5000, 10), (1920, 1200)];
    assert_eq!(
        enumerate_modes(&sizes),
        vec![(1920, 1200), (1920, 1080), (640, 480)]
    );
}

// ---- the pipeline ----------------------------------------------------------------------------

fn config() -> PipelineConfig {
    PipelineConfig::default()
}

#[test]
fn a_fresh_pipeline_reports_running_with_no_frames_yet() {
    let shared = Shared::new(30 * SECOND, 0);
    assert_eq!(shared.state(SECOND), PipelineState::Running);
    assert_eq!(shared.stats(SECOND).counters.frames_captured, 0);
    let mut cap = Capture::new(true, &config(), 0);
    let mut shared = shared;
    assert!(cap.open_first(Some(Ok(None)), &mut shared, 0));
    let mut slot: Slot<CompressedFrame> = Slot::new();
    let r = cap.captured(Ok(frame_from(grey(640, 480), 0)), &mut slot, &mut shared, SECOND);
    assert!(matches!(r, Step::Done(StepEnd::Continue)));
    assert_eq!(shared.stats(SECOND).counters.frames_captured, 1);
    assert_eq!(shared.state(2 * SECOND), PipelineState::Running);
}

#[test]
fn stall_is_derived_from_the_clock_not_from_a_thread() {
    let mut shared = Shared::new(20 * MILLISECOND, 0);
    let mut cap = Capture::new(true, &config(), 0);
    assert!(cap.open_first(Some(Ok(None)), &mut shared, 0));
    let mut slot: Slot<CompressedFrame> = Slot::new();
    cap.captured(
        Err(CaptureError::Timeout(2 * MILLISECOND)),
        &mut slot,
        &mut shared,
        5 * MILLISECOND,
    );
    assert_eq!(shared.state(19 * MILLISECOND), PipelineState::Running);
    assert_eq!(shared.state(20 * MILLISECOND), PipelineState::Stalled);
    assert!(
        shared.frames_stalled_for(SECOND).is_none(),
        "no frame has ever arrived"
    );
    assert!(shared.stats(0).counters.capture_errors > 0);
}

#[test]
fn bytesused_statistics_are_instrumented() {
    let mut shared = Shared::new(SECOND, 0);
    let mut cap = Capture::new(true, &config(), 0);
    let mut slot: Slot<CompressedFrame> = Slot::new();
    let len = grey(1920, 1080).len() as u32;
    for i in 0..5u32 {
        cap.captured(
            Ok(frame_from(grey(1920, 1080), i)),
            &mut slot,
            &mut shared,
            u128::from(i),
        );
    }
    let b = shared.stats(0).counters.bytes;
    assert!(b.count >= 5);
    assert_eq!((b.min, b.max, b.last), (len, len, len));
    assert_eq!(shared.stats(0).counters.dropped_pre_decode, 4);
    assert_eq!(shared.take_bytes_window().count, 5);
    assert_eq!(shared.take_bytes_window().count, 0);
}

#[test]
fn a_failing_source_is_answered_with_longer_and_longer_naps() {
    let mut shared = Shared::new(50 * MILLISECOND, 0);
    let mut cap = Capture::new(true, &config(), 0);
    let mut slot: Slot<CompressedFrame> = Slot::new();
    for n in 0..12u64 {
        let step = cap.captured(
            Err(CaptureError::Io(io(libc::EIO))),
            &mut slot,
            &mut shared,
            0,
        );
        let nap = match step {
            Step::Nap(d) => d,
            other => panic!("expected a nap: {other:?}"),
        };
        assert_eq!(nap, if n < 10 { BACKOFF } else { BACKOFF_SLOW });
        assert_eq!(shared.stats(0).counters.capture_errors, n + 1);
    }
    assert_eq!(nap_piece(10 * MILLISECOND, 0), 2 * MILLISECOND);
}

#[test]
fn a_run_of_identical_errors_is_formatted_once_but_counted_every_time() {
    let mut shared = Shared::new(SECOND, 0);
    let mut cap = Capture::new(true, &config(), 0);
    let mut slot: Slot<CompressedFrame> = Slot::new();
    for i in 0..3 {
        let e = IoError {
            errno: Some(libc::EIO),
            timed_out: false,
            text: format!("number {i}"),
        };
        cap.captured(Err(CaptureError::Io(e)), &mut slot, &mut shared, 0);
    }
    let st = shared.stats(0);
    assert!(st
        .last_error
        .as_deref()
        .is_some_and(|e| e.contains("I/O error") && e.contains("number 0")));
    assert!(st.counters.capture_errors >= 3);
    assert_eq!(
        error_kind(&CaptureError::Io(io(libc::EIO))),
        error_kind(&CaptureError::Io(io(libc::EIO)))
    );
}

#[test]
fn a_panic_of_the_source_is_a_loss_with_its_message() {
    let mut shared = Shared::new(SECOND, 0);
    let mut cap = Capture::new(false, &config(), 0);
    cap.open_first(Some(Ok(None)), &mut shared, 0);
    let mut slot: Slot<CompressedFrame> = Slot::new();
    let r = capture_loop(
        &mut cap,
        StepEnd::Panicked("STREAMOFF failed".to_string()),
        &mut slot,
        &mut shared,
        5,
    );
    assert!(matches!(r, LoopAction::Exit));
    assert!(slot.is_closed());
    let st = shared.stats(5);
    assert_eq!(st.counters.state, PipelineState::Disconnected);
    assert!(st
        .last_error
        .as_deref()
        .is_some_and(|e| e.contains("panicked") && e.contains("STREAMOFF")));
}

#[test]
fn decode_errors_are_counted_and_frames_are_handed_on() {
    let mut shared = Shared::new(SECOND, 0);
    let mut output: Slot<DecodedFrame> = Slot::new();
    let mut scratch = DecodedFrame::empty();
    decode_loop(
        Err(DecodeError::Jpeg("cut off".to_string())),
        &mut scratch,
        &mut output,
        &mut shared,
    );
    assert_eq!(shared.stats(0).counters.decode_errors, 1);
    assert_eq!(
        shared.stats(0).last_error.as_deref(),
        Some("jpeg decode failed: cut off")
    );
    scratch.width = 5;
    decode_loop(Ok(()), &mut scratch, &mut output, &mut shared);
    scratch.width = 6;
    decode_loop(Ok(()), &mut scratch, &mut output, &mut shared);
    assert_eq!(scratch.width, 5, "the displaced frame is the next scratch");
    assert_eq!(output.take().map(|f| f.width), Some(6));
    let c = shared.stats(0).counters;
    assert_eq!((c.frames_decoded, c.dropped_post_decode), (2, 1));
    assert!(matches!(decode_next(None, true, false), DecodeStep::Exit));
    assert!(matches!(decode_next(None, false, false), DecodeStep::Again));
}

#[test]
fn a_lost_device_is_reopened_with_doubling_waits() {
    let mut shared = Shared::new(SECOND, 0);
    let cfg = PipelineConfig {
        reopen_backoff: 100,
        reopen_max_backoff: 350,
        ..config()
    };
    let mut cap = Capture::new(true, &cfg, 0);
    cap.open_first(Some(Ok(None)), &mut shared, 0);
    let mut slot: Slot<CompressedFrame> = Slot::new();
    let r = capture_loop(
        &mut cap,
        StepEnd::Lost("gone".to_string()),
        &mut slot,
        &mut shared,
        5,
    );
    assert!(matches!(r, LoopAction::Release));
    assert!(!slot.is_closed());
    assert!(matches!(
        cap.next_pass(&slot, &shared),
        LoopStart::Reconnect
    ));
    let mut delay = cap.first_delay();
    let mut waits: Vec<Nanos> = Vec::new();
    for _ in 0..4 {
        match cap.reconnect(ReconnectEvent::Begin, delay, false, &mut shared, 6) {
            ReconnectStep::Wait(d) => waits.push(d),
            other => panic!("{other:?}"),
        }
        assert_eq!(shared.state(6), PipelineState::Reconnecting);
        assert!(matches!(
            cap.reconnect(ReconnectEvent::Waited, delay, false, &mut shared, 6),
            ReconnectStep::Open
        ));
        match cap.reconnect(
            ReconnectEvent::Opened(Some(Err(CaptureError::Disconnected))),
            delay,
            false,
            &mut shared,
            6,
        ) {
            ReconnectStep::Retry(d) => delay = d,
            other => panic!("{other:?}"),
        }
    }
    assert_eq!(waits, vec![100, 200, 350, 350]);
    assert!(matches!(
        cap.reconnect(
            ReconnectEvent::Opened(Some(Ok(Some((1920, 1080))))),
            delay,
            false,
            &mut shared,
            7
        ),
        ReconnectStep::Reopened
    ));
    let c = shared.stats(7).counters;
    assert_eq!((c.disconnects, c.reopens, c.reopen_attempts), (1, 1, 4));
    assert_eq!(c.negotiated_dimensions, Some((1920, 1080)));
    assert!(matches!(cap.next_pass(&slot, &shared), LoopStart::Step));
}

#[test]
fn a_stall_restarts_the_stream() {
    let mut shared = Shared::new(SECOND, 0);
    let cfg = PipelineConfig {
        restart_after: Some(2 * SECOND),
        ..config()
    };
    let mut cap = Capture::new(true, &cfg, 0);
    cap.open_first(Some(Ok(None)), &mut shared, 0);
    assert!(matches!(cap.step(&mut shared, SECOND), Step::NextFrame));
    assert!(matches!(cap.step(&mut shared, 2 * SECOND), Step::Restart));
    assert!(matches!(cap.step(&mut shared, 3 * SECOND), Step::NextFrame));
    let end = cap.invoke_restart(
        RestartOutcome::Returned(Err(CaptureError::Disconnected)),
        &mut shared,
    );
    assert!(matches!(end, StepEnd::Lost(_)));
    let end = cap.invoke_restart(RestartOutcome::Panicked("why".to_string()), &mut shared);
    assert!(matches!(end, StepEnd::Continue));
    assert_eq!(shared.stats(0).counters.stream_restarts, 1);
}

#[test]
fn the_format_ladder_restarts_reopens_and_accepts() {
    let cfg = PipelineConfig {
        format_mismatch_grace: Some(10),
        format_mismatch_frames: 3,
        format_mismatch_restart_limit: 2,
        ..config()
    };
    let mut w = FormatWatch::new(&cfg, true);
    w.arm(Some((1920, 1080)));
    let mut seen: Vec<FormatVerdict> = Vec::new();
    let mut now: Nanos = 0;
    for _ in 0..60 {
        now += 10;
        let v = w.watch((640, 480), now);
        if !matches!(v, FormatVerdict::Fine) {
            if matches!(v, FormatVerdict::Reopen) {
                w.arm(Some((1920, 1080)));
            }
            seen.push(v);
        }
    }
    let restarts = seen.iter().filter(|v| matches!(v, FormatVerdict::Restart)).count();
    let reopens = seen.iter().filter(|v| matches!(v, FormatVerdict::Reopen)).count();
    let accepts = seen.iter().filter(|v| matches!(v, FormatVerdict::Accept)).count();
    assert_eq!((reopens, accepts), (1, 1), "{seen:?}");
    assert!(restarts >= 2, "{seen:?}");
    let mut idle = FormatWatch::new(&cfg, true);
    idle.arm(None);
    for i in 0..20u32 {
        assert!(matches!(
            idle.watch((640, 480), u128::from(i) * 100),
            FormatVerdict::Fine
        ));
    }
}

#[test]
fn an_opener_of_one_source_hands_it_out_once() {
    struct Inert;
    impl FrameSource for Inert {
        fn next_frame(&mut self) -> Result<CompressedFrame, CaptureError> {
            Err(CaptureError::Timeout(0))
        }
        fn describe(&self) -> String {
            "inert".to_string()
        }
    }
    let source: Box<dyn FrameSource> = Box::new(Inert);
    let mut opener = OnceOpener::new(source, "once".to_string());
    assert_eq!(opener.describe(), "once");
    assert_eq!(opener.open().expect("the source").describe(), "inert");
    assert!(matches!(opener.open(), Err(CaptureError::Disconnected)));
    assert!(!opener.set_format(1, 1, 1));
}

#[test]
fn errors_are_spelled_out() {
    assert_eq!(
        CaptureError::Timeout(250 * MILLISECOND).text(),
        "no frame within 250ms"
    );
    assert_eq!(CaptureError::Timeout(1_500_000_000).text(), "no frame within 1.5s");
    assert_eq!(CaptureError::Timeout(1_500).text(), "no frame within 1.5µs");
    assert_eq!(
        CaptureError::Config("fps must be non-zero".to_string()).text(),
        "capture configuration: fps must be non-zero"
    );
    assert_eq!(CaptureError::Disconnected.text(), "capture device disconnected");
    assert_eq!(
        JpegHeaderError::NotJpeg.text(),
        "no SOI marker at the start of the frame"
    );
}

#[test]
fn bytes_stats_track_min_max_mean_and_last() {
    let mut s = BytesUsedStats::default();
    assert_eq!((s.count, s.total), (0, 0));
    s.record(100);
    assert_eq!((s.count, s.min, s.max, s.last), (1, 100, 100, 100));
    s.record(300);
    s.record(200);
    assert_eq!((s.count, s.min, s.max, s.last), (3, 100, 300, 200));
    assert!((s.total as f64 / s.count as f64 - 200.0).abs() < 1e-9);
}

#[test]
fn interval_fractions_reduce_to_fps() {
    assert!(check_interval("/dev/video4", 60, &interval(1, 60, "60.000 fps")).is_ok());
    assert!(check_interval("/dev/video4", 60, &interval(2, 120, "60.000 fps")).is_ok());
    let e = check_interval("/dev/video4", 60, &interval(0, 60, "0.000 fps")).unwrap_err();
    assert!(
        matches!(&e, CaptureError::Config(s) if s == "asked for 60 fps, driver returned interval \
             0/60 (0.000 fps) on /dev/video4"),
        "{e:?}"
    );
}

#[test]
fn a_directory_is_replayed_in_the_order_of_its_frames() {
    let names = ["f10.jpg", "f02.jpg", ".jpg", "notes.txt", "f03.JPG", "x.tar.jpg", "jpg"];
    let files = frame_files(names.iter().map(|n| n.to_string()).collect());
    assert_eq!(files, vec!["f02.jpg", "f10.jpg", "x.tar.jpg"]);
    let mut s = SyntheticSource::from_dir(
        "fixtures/frames/absrange",
        files.iter().map(|_| grey(1920, 1080)).collect(),
        0,
    )
    .expect("source");
    assert_eq!(
        s.describe(),
        "synthetic (fixtures/frames/absrange, 3 frames)"
    );
    assert_eq!(s.source_frames().len(), 3);
    let f = s.next_frame(0).expect("frame");
    assert_eq!((f.width, f.height), (1920, 1080));
    match SyntheticSource::from_dir("empty", Vec::new(), 0) {
        Err(CaptureError::Config(m)) => assert_eq!(m, "synthetic source has no frames"),
        _ => panic!("an empty directory was accepted"),
    }
}

#[test]
fn an_opening_is_given_up_only_by_a_stop() {
    let mut shared = Shared::new(SECOND, 0);
    assert!(matches!(
        open_detached(OpenWord::Nothing, false, &shared),
        OpenWait::Poll
    ));
    assert!(matches!(
        open_detached(OpenWord::Nothing, true, &shared),
        OpenWait::Done(None)
    ));
    match open_detached(OpenWord::Panicked("boom".to_string()), false, &shared) {
        OpenWait::Done(Some(Err(CaptureError::Config(m)))) => {
            assert_eq!(m, "opening the device panicked: boom")
        }
        other => panic!("{other:?}"),
    }
    match open_detached(OpenWord::Ended, false, &shared) {
        OpenWait::Done(Some(Err(CaptureError::Config(m)))) => {
            assert_eq!(m, "the open helper thread ended without answering")
        }
        other => panic!("{other:?}"),
    }
    shared.stopping = true;
    assert!(matches!(
        open_detached(OpenWord::Nothing, false, &shared),
        OpenWait::Done(None)
    ));
    let answer = OpenWord::Opened(Ok(Some((1920, 1080))));
    assert!(matches!(
        open_detached(answer, false, &shared),
        OpenWait::Done(Some(Ok(Some((1920, 1080)))))
    ));
    shared.thread_panicked("nanokvm-decode");
    assert_eq!(
        shared.last_error.as_deref(),
        Some("nanokvm-decode thread panicked")
    );
}

#[test]
fn threads_that_do_not_start_stop_the_pipeline() {
    for (capture, decode, words) in [
        (Some("a"), None, "failed to spawn nanokvm-capture: a"),
        (None, Some("b"), "failed to spawn nanokvm-decode: b"),
        (Some("a"), Some("b"), "failed to spawn nanokvm-decode: b"),
        (None, None, "failed to start pipeline threads"),
    ] {
        let mut shared = Shared::new(SECOND, 0);
        shared.spawn_failed(capture.map(String::from), decode.map(String::from));
        assert!(shared.stopping);
        assert_eq!(shared.state(0), PipelineState::Stopped);
        assert_eq!(shared.last_error.as_deref(), Some(words));
    }
}

#[test]
fn an_opener_passes_its_time_limit_on() {
    let attempt = V4l2Source::open("/dev/video4".to_string(), 1920, 1080, 60).expect("attempt");
    let ready = nanokvm::capture::v4l2::OpenAttempt {
        call: OpenCall::StartStream,
        ..attempt
    };
    let OpenStep::Opened(mut source) = ready.advance(OpenReply::Buffers(4)) else {
        panic!("not opened");
    };
    let mut opener = V4l2Opener::new("/dev/video4".to_string(), 1920, 1080, 60);
    let before = source.timeout;
    opener.prepare(&mut source);
    assert_eq!(source.timeout, before);
    opener.set_timeout(7 * MILLISECOND);
    opener.prepare(&mut source);
    assert_eq!(source.timeout, 7 * MILLISECOND);
}

#[test]
fn a_reopened_device_has_nothing_missing() {
    let config = PipelineConfig::default();
    let mut shared = Shared::new(SECOND, 0);
    let mut cap = Capture::new(true, &config, 0);
    assert!(cap.open_first(Some(Ok(None)), &mut shared, 0));
    cap.lose_device("gone".to_string(), &mut shared, MILLISECOND);
    assert_eq!(shared.state(MILLISECOND), PipelineState::Disconnected);
    assert_eq!(shared.counters.disconnected_since, Some(MILLISECOND));
    let failed = ReconnectEvent::Opened(Some(Err(CaptureError::Disconnected)));
    cap.reconnect(failed, 0, false, &mut shared, 2 * MILLISECOND);
    assert!(shared.last_error.is_some());
    let opened = ReconnectEvent::Opened(Some(Ok(Some((1920, 1080)))));
    let step = cap.reconnect(opened, 0, false, &mut shared, 3 * MILLISECOND);
    assert_eq!(step, ReconnectStep::Reopened);
    assert_eq!(shared.state(3 * MILLISECOND), PipelineState::Running);
    assert_eq!(shared.counters.disconnected_since, None);
    assert_eq!(shared.last_error, None);
}
