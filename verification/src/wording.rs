//! What the messages say: the numbers, the names and the sides that each of them has to get right.

use vstd::prelude::*;

use crate::audio::{self, alsa};
use crate::capture::decoder::{self, DecodeError};
use crate::capture::jpeg::{self, JpegHeaderError};
use crate::capture::{pipeline, v4l2, CaptureError};
use crate::cli::keys;
use crate::cli::shot::{self, ShotError};
use crate::clock::Nanos;
use crate::discovery::nodes::{self, AudioView, PairView, SerialView, VideoView};
use crate::discovery::topology::EvidenceView;
use crate::discovery::{self, listing, reopen, ConstraintsView, ErrorView, NodeKind};
use crate::path;
use crate::text;

verus! {

/// A text mentions itself.
proof fn lemma_whole(part: Seq<char>)
    ensures
        text::mentions(part, part),
{
    lemma_part(seq![], part, seq![]);
    assert(seq![] + part + seq![] =~= part);
}

/// A text mentions its end.
proof fn lemma_end(front: Seq<char>, part: Seq<char>)
    ensures
        text::mentions(front + part, part),
{
    lemma_part(front, part, seq![]);
    assert(front + part + seq![] =~= front + part);
}

/// A text that goes on mentions what it did.
proof fn lemma_more(words: Seq<char>, more: Seq<char>, part: Seq<char>)
    requires
        text::mentions(words, part),
    ensures
        text::mentions(words + more, part),
{
    reveal(text::mentions);
    let at = choose|at: int|
        0 <= at && at + part.len() <= words.len() && #[trigger] words.subrange(at, at + part.len())
            == part;
    assert((words + more).subrange(at, at + part.len()) =~= words.subrange(at, at + part.len()));
}

proof fn lemma_grouping(a: Seq<char>, b: Seq<char>, c: Seq<char>)
    ensures
        a + b + c == a + (b + c),
{
    assert(a + b + c =~= a + (b + c));
}

/// A text mentions each of its parts.
proof fn lemma_part(front: Seq<char>, part: Seq<char>, back: Seq<char>)
    ensures
        text::mentions(front + part + back, part),
{
    reveal(text::mentions);
    let whole = front + part + back;
    let at = front.len() as int;
    assert(whole.subrange(at, at + part.len()) =~= part);
}

/// A driver that substituted another mode is told with the mode that was asked for, the one it
/// returned and the node.
pub proof fn another_mode_is_told_with_both_modes(
    path: Seq<char>,
    width: u32,
    height: u32,
    got: v4l2::FormatReply,
)
    ensures
        text::mentions(
            v4l2::substituted_mode(path, width, height, got),
            "asked for MJPG "@
                + (text::decimal(width as nat) + "x"@ + text::decimal(height as nat)),
        ),
        text::mentions(
            v4l2::substituted_mode(path, width, height, got),
            ", driver returned "@ + got.fourcc@ + " "@
                + (text::decimal(got.width as nat) + "x"@ + text::decimal(got.height as nat)),
        ),
        text::mentions(v4l2::substituted_mode(path, width, height, got), " on "@ + path),
{
    let p1 = text::decimal(width as nat) + "x"@ + text::decimal(height as nat);
    let p5 = text::decimal(got.width as nat) + "x"@ + text::decimal(got.height as nat);
    let t0 = "asked for MJPG "@;
    let t1 = t0 + p1;
    let t2 = t1 + ", driver returned "@;
    let t3 = t2 + got.fourcc@;
    let t4 = t3 + " "@;
    let t5 = t4 + p5;
    let t6 = t5 + " on "@;
    let t7 = t6 + path;
    assert(v4l2::substituted_mode(path, width, height, got) == t7);
    lemma_whole(t1);
    lemma_more(t1, ", driver returned "@, t1);
    lemma_more(t2, got.fourcc@, t1);
    lemma_more(t3, " "@, t1);
    lemma_more(t4, p5, t1);
    lemma_more(t5, " on "@, t1);
    lemma_more(t6, path, t1);
    let part = ", driver returned "@ + got.fourcc@ + " "@ + p5;
    lemma_grouping(t1, ", driver returned "@, got.fourcc@);
    lemma_grouping(t1, ", driver returned "@ + got.fourcc@, " "@);
    lemma_grouping(t1, ", driver returned "@ + got.fourcc@ + " "@, p5);
    lemma_end(t1, part);
    lemma_more(t5, " on "@, part);
    lemma_more(t6, path, part);
    let part = " on "@ + path;
    lemma_grouping(t5, " on "@, path);
    lemma_end(t5, part);
}

/// A driver that substituted another rate is told with the rate that was asked for, the interval that
/// it returned and the node.
pub proof fn another_rate_is_told_with_both_rates(
    path: Seq<char>,
    fps: u32,
    got: v4l2::IntervalReply,
)
    ensures
        text::mentions(
            v4l2::substituted_rate(path, fps, got),
            "asked for "@ + text::decimal(fps as nat),
        ),
        text::mentions(
            v4l2::substituted_rate(path, fps, got),
            " fps, driver returned interval "@ + text::decimal(got.numerator as nat) + "/"@
                + text::decimal(got.denominator as nat),
        ),
        text::mentions(v4l2::substituted_rate(path, fps, got), ") on "@ + path),
{
    let p1 = text::decimal(fps as nat);
    let p2 = " fps, driver returned interval "@;
    let p3 = text::decimal(got.numerator as nat);
    let p5 = text::decimal(got.denominator as nat);
    let t0 = "asked for "@;
    let t1 = t0 + p1;
    let t2 = t1 + p2;
    let t3 = t2 + p3;
    let t4 = t3 + "/"@;
    let t5 = t4 + p5;
    let t6 = t5 + " ("@;
    let t7 = t6 + got.rate@;
    let t8 = t7 + ") on "@;
    let t9 = t8 + path;
    assert(v4l2::substituted_rate(path, fps, got) == t9);
    lemma_whole(t1);
    lemma_more(t1, p2, t1);
    lemma_more(t2, p3, t1);
    lemma_more(t3, "/"@, t1);
    lemma_more(t4, p5, t1);
    lemma_more(t5, " ("@, t1);
    lemma_more(t6, got.rate@, t1);
    lemma_more(t7, ") on "@, t1);
    lemma_more(t8, path, t1);
    let part = p2 + p3 + "/"@ + p5;
    lemma_grouping(t1, p2, p3);
    lemma_grouping(t1, p2 + p3, "/"@);
    lemma_grouping(t1, p2 + p3 + "/"@, p5);
    lemma_end(t1, part);
    lemma_more(t5, " ("@, part);
    lemma_more(t6, got.rate@, part);
    lemma_more(t7, ") on "@, part);
    lemma_more(t8, path, part);
    let part = ") on "@ + path;
    lemma_grouping(t7, ") on "@, path);
    lemma_end(t7, part);
}

/// Too few buffers are told with how many there are and how many there should be.
pub proof fn too_few_buffers_are_told_with_how_many(path: Seq<char>, granted: u32)
    ensures
        text::mentions(
            v4l2::too_few_buffers(path, granted),
            "REQBUFS granted "@ + text::decimal(granted as nat) + " buffer(s) on "@ + path,
        ),
        text::mentions(v4l2::too_few_buffers(path, granted), ", asked for "@ + text::decimal(4)),
{
    let p1 = text::decimal(granted as nat);
    let p6 = ";              streaming needs at least 2"@;
    let t0 = "REQBUFS granted "@;
    let t1 = t0 + p1;
    let t2 = t1 + " buffer(s) on "@;
    let t3 = t2 + path;
    let t4 = t3 + ", asked for "@;
    let t5 = t4 + text::decimal(4);
    let t6 = t5 + p6;
    assert(v4l2::too_few_buffers(path, granted) == t6);
    lemma_whole(t3);
    lemma_more(t3, ", asked for "@, t3);
    lemma_more(t4, text::decimal(4), t3);
    lemma_more(t5, p6, t3);
    let part = ", asked for "@ + text::decimal(4);
    lemma_grouping(t3, ", asked for "@, text::decimal(4));
    lemma_end(t3, part);
    lemma_more(t5, p6, part);
}

/// A frame over the ceiling is told with its number, the size it claims and the ceiling.
pub proof fn a_frame_over_the_ceiling_is_told_with_both_sizes(
    sequence: u32,
    width: u32,
    height: u32,
)
    ensures
        text::mentions(
            v4l2::oversized(sequence, width, height),
            "sequence "@ + text::decimal(sequence as nat),
        ),
        text::mentions(
            v4l2::oversized(sequence, width, height),
            ": header claims "@
                + (text::decimal(width as nat) + "x"@ + text::decimal(height as nat)),
        ),
        text::mentions(
            v4l2::oversized(sequence, width, height),
            ", over the                  "@ + (text::decimal(4096) + "x"@ + text::decimal(2304))
                + " ceiling"@,
        ),
{
    let p1 = text::decimal(sequence as nat);
    let p3 = text::decimal(width as nat) + "x"@ + text::decimal(height as nat);
    let p4 = ", over the                  "@;
    let p5 = text::decimal(4096) + "x"@ + text::decimal(2304);
    let t0 = "sequence "@;
    let t1 = t0 + p1;
    let t2 = t1 + ": header claims "@;
    let t3 = t2 + p3;
    let t4 = t3 + p4;
    let t5 = t4 + p5;
    let t6 = t5 + " ceiling"@;
    assert(v4l2::oversized(sequence, width, height) == t6);
    lemma_whole(t1);
    lemma_more(t1, ": header claims "@, t1);
    lemma_more(t2, p3, t1);
    lemma_more(t3, p4, t1);
    lemma_more(t4, p5, t1);
    lemma_more(t5, " ceiling"@, t1);
    let part = ": header claims "@ + p3;
    lemma_grouping(t1, ": header claims "@, p3);
    lemma_end(t1, part);
    lemma_more(t3, p4, part);
    lemma_more(t4, p5, part);
    lemma_more(t5, " ceiling"@, part);
    let part = p4 + p5 + " ceiling"@;
    lemma_grouping(t3, p4, p5);
    lemma_grouping(t3, p4 + p5, " ceiling"@);
    lemma_end(t3, part);
}

/// A disagreement on the size is told with that of the frame first and that of the decoder second.
pub proof fn a_disagreement_on_the_size_is_told_with_both(
    header_w: u32,
    header_h: u32,
    decoder_w: u32,
    decoder_h: u32,
)
    ensures
        text::mentions(
            (DecodeError::DimensionMismatch { header_w, header_h, decoder_w, decoder_h }).words(),
            "dimension disagreement: header says "@
                + (text::decimal(header_w as nat) + "x"@ + text::decimal(header_h as nat)),
        ),
        text::mentions(
            (DecodeError::DimensionMismatch { header_w, header_h, decoder_w, decoder_h }).words(),
            ", decoder says "@
                + (text::decimal(decoder_w as nat) + "x"@ + text::decimal(decoder_h as nat)),
        ),
{
    let p0 = "dimension disagreement: header says "@;
    let p1 = text::decimal(header_w as nat) + "x"@ + text::decimal(header_h as nat);
    let p3 = text::decimal(decoder_w as nat) + "x"@ + text::decimal(decoder_h as nat);
    let t0 = p0;
    let t1 = t0 + p1;
    let t2 = t1 + ", decoder says "@;
    let t3 = t2 + p3;
    assert((DecodeError::DimensionMismatch { header_w, header_h, decoder_w, decoder_h }).words() == t3);
    lemma_whole(t1);
    lemma_more(t1, ", decoder says "@, t1);
    lemma_more(t2, p3, t1);
    let part = ", decoder says "@ + p3;
    lemma_grouping(t1, ", decoder says "@, p3);
    lemma_end(t1, part);
}

/// An output of another size than expected is told with what the decoder wants and with what was
/// expected for this size.
pub proof fn another_output_size_is_told_with_both(
    width: u32,
    height: u32,
    wanted: usize,
    expected: usize,
)
    ensures
        text::mentions(
            (DecodeError::UnexpectedBufferSize { width, height, wanted, expected }).words(),
            "decoder wants "@ + text::decimal(wanted as nat) + " bytes for "@
                + (text::decimal(width as nat) + "x"@ + text::decimal(height as nat)),
        ),
        text::mentions(
            (DecodeError::UnexpectedBufferSize { width, height, wanted, expected }).words(),
            " RGBA, expected "@ + text::decimal(expected as nat),
        ),
{
    let p1 = text::decimal(wanted as nat);
    let p3 = text::decimal(width as nat) + "x"@ + text::decimal(height as nat);
    let p5 = text::decimal(expected as nat);
    let t0 = "decoder wants "@;
    let t1 = t0 + p1;
    let t2 = t1 + " bytes for "@;
    let t3 = t2 + p3;
    let t4 = t3 + " RGBA, expected "@;
    let t5 = t4 + p5;
    assert((DecodeError::UnexpectedBufferSize { width, height, wanted, expected }).words() == t5);
    lemma_whole(t3);
    lemma_more(t3, " RGBA, expected "@, t3);
    lemma_more(t4, p5, t3);
    let part = " RGBA, expected "@ + p5;
    lemma_grouping(t3, " RGBA, expected "@, p5);
    lemma_end(t3, part);
}

/// A size over the ceiling is told with the size first and the ceiling second.
pub proof fn a_size_over_the_ceiling_is_told_with_the_ceiling(
    width: u32,
    height: u32,
    max_width: u32,
    max_height: u32,
)
    ensures
        text::mentions(
            (DecodeError::DimensionsTooLarge { width, height, max_width, max_height }).words(),
            "frame claims "@ + (text::decimal(width as nat) + "x"@ + text::decimal(height as nat)),
        ),
        text::mentions(
            (DecodeError::DimensionsTooLarge { width, height, max_width, max_height }).words(),
            ", over the "@
                + (text::decimal(max_width as nat) + "x"@ + text::decimal(max_height as nat))
                + " ceiling"@,
        ),
{
    let p1 = text::decimal(width as nat) + "x"@ + text::decimal(height as nat);
    let p3 = text::decimal(max_width as nat) + "x"@ + text::decimal(max_height as nat);
    let t0 = "frame claims "@;
    let t1 = t0 + p1;
    let t2 = t1 + ", over the "@;
    let t3 = t2 + p3;
    let t4 = t3 + " ceiling"@;
    assert((DecodeError::DimensionsTooLarge { width, height, max_width, max_height }).words() == t4);
    lemma_whole(t1);
    lemma_more(t1, ", over the "@, t1);
    lemma_more(t2, p3, t1);
    lemma_more(t3, " ceiling"@, t1);
    let part = ", over the "@ + p3 + " ceiling"@;
    lemma_grouping(t1, ", over the "@, p3);
    lemma_grouping(t1, ", over the "@ + p3, " ceiling"@);
    lemma_end(t1, part);
}

/// What is no marker is told with the place where one should be and with what stands there.
pub proof fn what_is_no_marker_is_told_with_its_place(offset: usize, found: u8)
    ensures
        text::mentions(
            (JpegHeaderError::NotAMarker { offset, found }).words(),
            "expected a marker at offset "@ + text::decimal(offset as nat),
        ),
        text::mentions(
            (JpegHeaderError::NotAMarker { offset, found }).words(),
            ", found "@ + jpeg::hex_byte(found),
        ),
{
    let p0 = "expected a marker at offset "@;
    let p1 = text::decimal(offset as nat);
    let t0 = p0;
    let t1 = t0 + p1;
    let t2 = t1 + ", found "@;
    let t3 = t2 + jpeg::hex_byte(found);
    assert((JpegHeaderError::NotAMarker { offset, found }).words() == t3);
    lemma_whole(t1);
    lemma_more(t1, ", found "@, t1);
    lemma_more(t2, jpeg::hex_byte(found), t1);
    let part = ", found "@ + jpeg::hex_byte(found);
    lemma_grouping(t1, ", found "@, jpeg::hex_byte(found));
    lemma_end(t1, part);
}

/// An impossible length is told with the marker of its segment.
pub proof fn an_impossible_length_is_told_with_its_marker(marker: u8, length: u16)
    ensures
        text::mentions(
            (JpegHeaderError::BadSegmentLength { marker, length }).words(),
            "segment for marker "@ + jpeg::hex_byte(marker),
        ),
        text::mentions(
            (JpegHeaderError::BadSegmentLength { marker, length }).words(),
            " declares an impossible length "@ + text::decimal(length as nat),
        ),
{
    let p2 = " declares an impossible length "@;
    let p3 = text::decimal(length as nat);
    let t0 = "segment for marker "@;
    let t1 = t0 + jpeg::hex_byte(marker);
    let t2 = t1 + p2;
    let t3 = t2 + p3;
    assert((JpegHeaderError::BadSegmentLength { marker, length }).words() == t3);
    lemma_whole(t1);
    lemma_more(t1, p2, t1);
    lemma_more(t2, p3, t1);
    let part = p2 + p3;
    lemma_grouping(t1, p2, p3);
    lemma_end(t1, part);
}

/// A frame header without a width or a height is told with both, the width first.
pub proof fn a_size_of_nothing_is_told_with_both_sides(width: u32, height: u32)
    ensures
        text::mentions(
            (JpegHeaderError::ZeroDimension { width, height }).words(),
            "start-of-frame declares "@ + text::decimal(width as nat) + "x"@
                + text::decimal(height as nat),
        ),
{
    let p0 = "start-of-frame declares "@;
    let p1 = text::decimal(width as nat);
    let p3 = text::decimal(height as nat);
    let t0 = p0;
    let t1 = t0 + p1;
    let t2 = t1 + "x"@;
    let t3 = t2 + p3;
    assert((JpegHeaderError::ZeroDimension { width, height }).words() == t3);
    lemma_whole(t3);
}

/// A reopening by the format watch is told with the size of the frames, the restarts that did not
/// help, the size that was negotiated and which reopening it is.
#[verifier::rlimit(100)]
pub proof fn a_reopening_is_told_with_both_sizes(
    dims: (u32, u32),
    restarts: u32,
    negotiated: (u32, u32),
    n: u64,
)
    ensures
        text::mentions(
            pipeline::reopen_words(dims, restarts, negotiated, n),
            "frames have been "@
                + (text::decimal(dims.0 as nat) + "x"@ + text::decimal(dims.1 as nat)),
        ),
        text::mentions(
            pipeline::reopen_words(dims, restarts, negotiated, n),
            " through "@ + text::decimal(restarts as nat)
                + " stream restart(s) but the negotiated format is "@,
        ),
        text::mentions(
            pipeline::reopen_words(dims, restarts, negotiated, n),
            " stream restart(s) but the negotiated format is "@
                + (text::decimal(negotiated.0 as nat) + "x"@ + text::decimal(negotiated.1 as nat)),
        ),
        text::mentions(
            pipeline::reopen_words(dims, restarts, negotiated, n),
            "; reopening the device to commit it again (format-mismatch reopen "@
                + text::decimal(n as nat),
        ),
{
    let p1 = text::decimal(dims.0 as nat) + "x"@ + text::decimal(dims.1 as nat);
    let p3 = text::decimal(restarts as nat);
    let p4 = " stream restart(s) but the negotiated format is "@;
    let p5 = text::decimal(negotiated.0 as nat) + "x"@ + text::decimal(negotiated.1 as nat);
    let p6 = "; reopening the device to commit it again (format-mismatch reopen "@;
    let p7 = text::decimal(n as nat);
    let t0 = "frames have been "@;
    let t1 = t0 + p1;
    let t2 = t1 + " through "@;
    let t3 = t2 + p3;
    let t4 = t3 + p4;
    let t5 = t4 + p5;
    let t6 = t5 + p6;
    let t7 = t6 + p7;
    let t8 = t7 + ")"@;
    assert(pipeline::reopen_words(dims, restarts, negotiated, n) == t8);
    lemma_whole(t1);
    lemma_more(t1, " through "@, t1);
    lemma_more(t2, p3, t1);
    lemma_more(t3, p4, t1);
    lemma_more(t4, p5, t1);
    lemma_more(t5, p6, t1);
    lemma_more(t6, p7, t1);
    lemma_more(t7, ")"@, t1);
    let part = " through "@ + p3 + p4;
    lemma_grouping(t1, " through "@, p3);
    lemma_grouping(t1, " through "@ + p3, p4);
    lemma_end(t1, part);
    lemma_more(t4, p5, part);
    lemma_more(t5, p6, part);
    lemma_more(t6, p7, part);
    lemma_more(t7, ")"@, part);
    let part = p4 + p5;
    lemma_grouping(t3, p4, p5);
    lemma_end(t3, part);
    lemma_more(t5, p6, part);
    lemma_more(t6, p7, part);
    lemma_more(t7, ")"@, part);
    let part = p6 + p7;
    lemma_grouping(t5, p6, p7);
    lemma_end(t5, part);
    lemma_more(t7, ")"@, part);
}

/// A shot that ran out of time is told with how long it waited and what it threw away: frames that
/// were skipped, frames that the source refused, and frames at another size.
pub proof fn a_stall_of_a_shot_is_told_with_what_was_thrown_away(
    waited: Nanos,
    skipped: u32,
    discarded: u32,
    mismatched: u32,
)
    ensures
        text::mentions(
            (ShotError::Timeout { waited, skipped, discarded, mismatched }).words(),
            "no usable frame within "@ + text::duration(waited as nat),
        ),
        text::mentions(
            (ShotError::Timeout { waited, skipped, discarded, mismatched }).words(),
            text::decimal(skipped as nat) + " frame(s) skipped, "@,
        ),
        text::mentions(
            (ShotError::Timeout { waited, skipped, discarded, mismatched }).words(),
            text::decimal(discarded as nat) + " refused by the source, "@,
        ),
        text::mentions(
            (ShotError::Timeout { waited, skipped, discarded, mismatched }).words(),
            text::decimal(mismatched as nat) + " at another size)"@,
        ),
{
    let p0 = "no usable frame within "@;
    let p1 = text::duration(waited as nat);
    let p3 = text::decimal(skipped as nat);
    let p5 = text::decimal(discarded as nat);
    let p6 = " refused by the source, "@;
    let p7 = text::decimal(mismatched as nat);
    let t0 = p0;
    let t1 = t0 + p1;
    let t2 = t1 + " ("@;
    let t3 = t2 + p3;
    let t4 = t3 + " frame(s) skipped, "@;
    let t5 = t4 + p5;
    let t6 = t5 + p6;
    let t7 = t6 + p7;
    let t8 = t7 + " at another size)"@;
    assert((ShotError::Timeout { waited, skipped, discarded, mismatched }).words() == t8);
    lemma_whole(t1);
    lemma_more(t1, " ("@, t1);
    lemma_more(t2, p3, t1);
    lemma_more(t3, " frame(s) skipped, "@, t1);
    lemma_more(t4, p5, t1);
    lemma_more(t5, p6, t1);
    lemma_more(t6, p7, t1);
    lemma_more(t7, " at another size)"@, t1);
    let part = p3 + " frame(s) skipped, "@;
    lemma_grouping(t2, p3, " frame(s) skipped, "@);
    lemma_end(t2, part);
    lemma_more(t4, p5, part);
    lemma_more(t5, p6, part);
    lemma_more(t6, p7, part);
    lemma_more(t7, " at another size)"@, part);
    let part = p5 + p6;
    lemma_grouping(t4, p5, p6);
    lemma_end(t4, part);
    lemma_more(t6, p7, part);
    lemma_more(t7, " at another size)"@, part);
    let part = p7 + " at another size)"@;
    lemma_grouping(t6, p7, " at another size)"@);
    lemma_end(t6, part);
}

/// A shot that saw another size than the negotiated one is told with the one it saw first.
pub proof fn a_wrong_size_is_told_with_both_sizes(
    want_width: u32,
    want_height: u32,
    saw_width: u32,
    saw_height: u32,
    mismatched: u32,
    restarted: bool,
)
    ensures
        text::mentions(
            (ShotError::WrongSize { want_width, want_height, saw_width, saw_height, mismatched, restarted }).words(),
            "the device is streaming "@
                + (text::decimal(saw_width as nat) + "x"@ + text::decimal(saw_height as nat)),
        ),
        text::mentions(
            (ShotError::WrongSize { want_width, want_height, saw_width, saw_height, mismatched, restarted }).words(),
            " but "@
                + (text::decimal(want_width as nat) + "x"@ + text::decimal(want_height as nat))
                + " was negotiated; "@,
        ),
        text::mentions(
            (ShotError::WrongSize { want_width, want_height, saw_width, saw_height, mismatched, restarted }).words(),
            " was negotiated; "@ + text::decimal(mismatched as nat) + " frames at the wrong size"@,
        ),
        text::mentions(
            (ShotError::WrongSize { want_width, want_height, saw_width, saw_height, mismatched, restarted }).words(),
            (if restarted { ", and restarting the stream did not fix it"@ } else { ""@ }),
        ),
{
    let p0 = "the device is streaming "@;
    let p1 = text::decimal(saw_width as nat) + "x"@ + text::decimal(saw_height as nat);
    let p3 = text::decimal(want_width as nat) + "x"@ + text::decimal(want_height as nat);
    let p5 = text::decimal(mismatched as nat);
    let p6 = " frames at the wrong size"@;
    let p7 = if restarted { ", and restarting the stream did not fix it"@ } else { ""@ };
    let p8 = ". The stream is stuck, not the device (C14) — replug the dongle, or pass --any-size to keep the frame as it is"@;
    let t0 = p0;
    let t1 = t0 + p1;
    let t2 = t1 + " but "@;
    let t3 = t2 + p3;
    let t4 = t3 + " was negotiated; "@;
    let t5 = t4 + p5;
    let t6 = t5 + p6;
    let t7 = t6 + p7;
    let t8 = t7 + p8;
    assert((ShotError::WrongSize { want_width, want_height, saw_width, saw_height, mismatched, restarted }).words() == t8);
    lemma_whole(t1);
    lemma_more(t1, " but "@, t1);
    lemma_more(t2, p3, t1);
    lemma_more(t3, " was negotiated; "@, t1);
    lemma_more(t4, p5, t1);
    lemma_more(t5, p6, t1);
    lemma_more(t6, p7, t1);
    lemma_more(t7, p8, t1);
    let part = " but "@ + p3 + " was negotiated; "@;
    lemma_grouping(t1, " but "@, p3);
    lemma_grouping(t1, " but "@ + p3, " was negotiated; "@);
    lemma_end(t1, part);
    lemma_more(t4, p5, part);
    lemma_more(t5, p6, part);
    lemma_more(t6, p7, part);
    lemma_more(t7, p8, part);
    let part = " was negotiated; "@ + p5 + p6;
    lemma_grouping(t3, " was negotiated; "@, p5);
    lemma_grouping(t3, " was negotiated; "@ + p5, p6);
    lemma_end(t3, part);
    lemma_more(t6, p7, part);
    lemma_more(t7, p8, part);
    let part = p7;
    lemma_end(t6, part);
    lemma_more(t7, p8, part);
}

/// The line of success has the file, the size of the frame and the bytes that were written.
#[verifier::rlimit(100)]
pub proof fn a_shot_is_summed_up_with_its_file_and_size(
    target: Seq<char>,
    bytes: nat,
    shot: shot::Shot,
)
    ensures
        text::mentions(
            shot::summary(target, bytes, &shot),
            "wrote "@ + target + ": "@
                + (text::decimal(shot.width as nat) + "x"@ + text::decimal(shot.height as nat)),
        ),
        text::mentions(
            shot::summary(target, bytes, &shot),
            text::decimal(bytes) + " bytes, skipped "@,
        ),
{
    let p3 = text::decimal(shot.width as nat) + "x"@ + text::decimal(shot.height as nat);
    let p7 = text::decimal(shot.skipped as nat);
    let p9 = text::decimal(shot.mismatched as nat);
    let p11 = if shot.discarded == 0 { seq![] } else { ", "@ + text::decimal(shot.discarded as nat) + " refused by the source"@ };
    let p12 = if shot.restarted { ", stream restarted once"@ } else { seq![] };
    let t0 = "wrote "@;
    let t1 = t0 + target;
    let t2 = t1 + ": "@;
    let t3 = t2 + p3;
    let t4 = t3 + ", "@;
    let t5 = t4 + text::decimal(bytes);
    let t6 = t5 + " bytes, skipped "@;
    let t7 = t6 + p7;
    let t8 = t7 + " frames, "@;
    let t9 = t8 + p9;
    let t10 = t9 + " at another size"@;
    let t11 = t10 + p11;
    let t12 = t11 + p12;
    assert(shot::summary(target, bytes, &shot) == t12);
    lemma_whole(t3);
    lemma_more(t3, ", "@, t3);
    lemma_more(t4, text::decimal(bytes), t3);
    lemma_more(t5, " bytes, skipped "@, t3);
    lemma_more(t6, p7, t3);
    lemma_more(t7, " frames, "@, t3);
    lemma_more(t8, p9, t3);
    lemma_more(t9, " at another size"@, t3);
    lemma_more(t10, p11, t3);
    lemma_more(t11, p12, t3);
    let part = text::decimal(bytes) + " bytes, skipped "@;
    lemma_grouping(t4, text::decimal(bytes), " bytes, skipped "@);
    lemma_end(t4, part);
    lemma_more(t6, p7, part);
    lemma_more(t7, " frames, "@, part);
    lemma_more(t8, p9, part);
    lemma_more(t9, " at another size"@, part);
    lemma_more(t10, p11, part);
    lemma_more(t11, p12, part);
}

/// The line of success has the frames that were skipped and those at another size, each with its own
/// number.
#[verifier::rlimit(100)]
pub proof fn a_shot_is_summed_up_with_what_was_thrown_away(
    target: Seq<char>,
    bytes: nat,
    shot: shot::Shot,
)
    ensures
        text::mentions(
            shot::summary(target, bytes, &shot),
            " bytes, skipped "@ + text::decimal(shot.skipped as nat) + " frames, "@,
        ),
        text::mentions(
            shot::summary(target, bytes, &shot),
            text::decimal(shot.mismatched as nat) + " at another size"@,
        ),
{
    let p3 = text::decimal(shot.width as nat) + "x"@ + text::decimal(shot.height as nat);
    let p7 = text::decimal(shot.skipped as nat);
    let p9 = text::decimal(shot.mismatched as nat);
    let p11 = if shot.discarded == 0 { seq![] } else { ", "@ + text::decimal(shot.discarded as nat) + " refused by the source"@ };
    let p12 = if shot.restarted { ", stream restarted once"@ } else { seq![] };
    let t0 = "wrote "@;
    let t1 = t0 + target;
    let t2 = t1 + ": "@;
    let t3 = t2 + p3;
    let t4 = t3 + ", "@;
    let t5 = t4 + text::decimal(bytes);
    let t6 = t5 + " bytes, skipped "@;
    let t7 = t6 + p7;
    let t8 = t7 + " frames, "@;
    let t9 = t8 + p9;
    let t10 = t9 + " at another size"@;
    let t11 = t10 + p11;
    let t12 = t11 + p12;
    assert(shot::summary(target, bytes, &shot) == t12);
    let part = " bytes, skipped "@ + p7 + " frames, "@;
    lemma_grouping(t5, " bytes, skipped "@, p7);
    lemma_grouping(t5, " bytes, skipped "@ + p7, " frames, "@);
    lemma_end(t5, part);
    lemma_more(t8, p9, part);
    lemma_more(t9, " at another size"@, part);
    lemma_more(t10, p11, part);
    lemma_more(t11, p12, part);
    let part = p9 + " at another size"@;
    lemma_grouping(t8, p9, " at another size"@);
    lemma_end(t8, part);
    lemma_more(t10, p11, part);
    lemma_more(t11, p12, part);
}

/// The line of success has the frames that the source refused, where there were any, and says whether
/// the stream was restarted.
#[verifier::rlimit(100)]
pub proof fn a_shot_is_summed_up_with_what_went_wrong(
    target: Seq<char>,
    bytes: nat,
    shot: shot::Shot,
)
    ensures
        text::mentions(
            shot::summary(target, bytes, &shot),
            (if shot.discarded == 0 { seq![] } else { ", "@ + text::decimal(shot.discarded as nat) + " refused by the source"@ }),
        ),
        text::mentions(
            shot::summary(target, bytes, &shot),
            (if shot.restarted { ", stream restarted once"@ } else { seq![] }),
        ),
{
    let p3 = text::decimal(shot.width as nat) + "x"@ + text::decimal(shot.height as nat);
    let p7 = text::decimal(shot.skipped as nat);
    let p9 = text::decimal(shot.mismatched as nat);
    let p11 = if shot.discarded == 0 { seq![] } else { ", "@ + text::decimal(shot.discarded as nat) + " refused by the source"@ };
    let p12 = if shot.restarted { ", stream restarted once"@ } else { seq![] };
    let t0 = "wrote "@;
    let t1 = t0 + target;
    let t2 = t1 + ": "@;
    let t3 = t2 + p3;
    let t4 = t3 + ", "@;
    let t5 = t4 + text::decimal(bytes);
    let t6 = t5 + " bytes, skipped "@;
    let t7 = t6 + p7;
    let t8 = t7 + " frames, "@;
    let t9 = t8 + p9;
    let t10 = t9 + " at another size"@;
    let t11 = t10 + p11;
    let t12 = t11 + p12;
    assert(shot::summary(target, bytes, &shot) == t12);
    let part = p11;
    lemma_end(t10, part);
    lemma_more(t11, p12, part);
    let part = p12;
    lemma_end(t11, part);
}

/// Evidence by a port peer says that the serial device sits under the port of its own side, the peer
/// of the port that the video device is plugged into.
pub proof fn a_peer_is_told_with_the_port_on_either_side(
    video_port: Seq<char>,
    peer_port: Seq<char>,
)
    ensures
        text::mentions(
            (EvidenceView::PortPeer { video_port, peer_port }).words(),
            ": the serial device sits under "@ + peer_port,
        ),
        text::mentions(
            (EvidenceView::PortPeer { video_port, peer_port }).words(),
            ", which the kernel declares the peer of the video device's port "@ + video_port,
        ),
{
    let p1 = ": the serial device sits under "@;
    let p3 = ", which the kernel declares the peer of the video device's port "@;
    let t0 = "port peer"@;
    let t1 = t0 + p1;
    let t2 = t1 + peer_port;
    let t3 = t2 + p3;
    let t4 = t3 + video_port;
    let t5 = t4 + " — proof"@;
    assert((EvidenceView::PortPeer { video_port, peer_port }).words() == t5);
    let part = p1 + peer_port;
    lemma_grouping(t0, p1, peer_port);
    lemma_end(t0, part);
    lemma_more(t2, p3, part);
    lemma_more(t3, video_port, part);
    lemma_more(t4, " — proof"@, part);
    let part = p3 + video_port;
    lemma_grouping(t2, p3, video_port);
    lemma_end(t2, part);
    lemma_more(t4, " — proof"@, part);
}

/// A pair is told with its video node first, its serial node second, and then why.
pub proof fn a_pair_is_told_with_its_video_node_first(p: PairView)
    requires
        p.evidence is Some,
    ensures
        text::mentions(
            p.words(),
            p.video.dev.text + " + "@ + p.serial.dev.text + " — "@ + p.evidence->0.words(),
        ),
        text::mentions(p.words(), "\n      audio: "@ + p.audio.words()),
{
    let t0 = p.video.dev.text;
    let t1 = t0 + " + "@;
    let t2 = t1 + p.serial.dev.text;
    let t3 = t2 + " — "@;
    let t4 = t3 + p.evidence->0.words();
    let t5 = t4 + "\n      audio: "@;
    let t6 = t5 + p.audio.words();
    assert(p.words() == t6);
    lemma_whole(t4);
    lemma_more(t4, "\n      audio: "@, t4);
    lemma_more(t5, p.audio.words(), t4);
    let part = "\n      audio: "@ + p.audio.words();
    lemma_grouping(t4, "\n      audio: "@, p.audio.words());
    lemma_end(t4, part);
}

/// A card that moved is told with its name before and its name now.
pub proof fn a_card_that_moved_is_told_with_both_names(
    found: reopen::ResolvedCardView,
    last: Seq<char>,
)
    requires
        last != found.device,
    ensures
        text::mentions(
            reopen::card_notice(found, Some(last)),
            "audio card moved: "@ + last + " is now "@ + found.device,
        ),
{
    let t0 = "audio card moved: "@;
    let t1 = t0 + last;
    let t2 = t1 + " is now "@;
    let t3 = t2 + found.device;
    let t4 = t3 + " ("@;
    let t5 = t4 + found.card.words();
    let t6 = t5 + ")"@;
    assert(reopen::card_notice(found, Some(last)) == t6);
    lemma_whole(t3);
    lemma_more(t3, " ("@, t3);
    lemma_more(t4, found.card.words(), t3);
    lemma_more(t5, ")"@, t3);
}

/// An opening that does not come back is told with how long it may take.
pub proof fn an_opening_that_does_not_come_back_is_told_with_its_limit(limit_ms: u64)
    ensures
        text::mentions(
            audio::stuck_opening(limit_ms),
            "the open has not returned in "@ + text::duration(limit_ms as nat * 1_000_000),
        ),
{
    let p0 = "the open has not returned in "@;
    let p1 = text::duration(limit_ms as nat * 1_000_000);
    let p2 = ". It is inside a device call that has not come back; nothing is waiting on it and video and input are unaffected"@;
    let t0 = p0;
    let t1 = t0 + p1;
    let t2 = t1 + p2;
    assert(audio::stuck_opening(limit_ms) == t2);
    lemma_whole(t1);
    lemma_more(t1, p2, t1);
}

/// A card that granted something else is told with what was asked for and with what it granted.
pub proof fn another_card_is_told_with_what_it_granted(rate: u32, channels: u32)
    ensures
        text::mentions(
            alsa::unexpected_device(rate, channels),
            "asked for "@ + text::decimal(48_000) + " Hz / "@ + text::decimal(2),
        ),
        text::mentions(
            alsa::unexpected_device(rate, channels),
            " ch S16_LE and got "@ + text::decimal(rate as nat) + " Hz / "@
                + text::decimal(channels as nat),
        ),
{
    let p5 = text::decimal(rate as nat);
    let p7 = text::decimal(channels as nat);
    let p8 = " ch; this device is not the one this client expects"@;
    let t0 = "asked for "@;
    let t1 = t0 + text::decimal(48_000);
    let t2 = t1 + " Hz / "@;
    let t3 = t2 + text::decimal(2);
    let t4 = t3 + " ch S16_LE and got "@;
    let t5 = t4 + p5;
    let t6 = t5 + " Hz / "@;
    let t7 = t6 + p7;
    let t8 = t7 + p8;
    assert(alsa::unexpected_device(rate, channels) == t8);
    lemma_whole(t3);
    lemma_more(t3, " ch S16_LE and got "@, t3);
    lemma_more(t4, p5, t3);
    lemma_more(t5, " Hz / "@, t3);
    lemma_more(t6, p7, t3);
    lemma_more(t7, p8, t3);
    let part = " ch S16_LE and got "@ + p5 + " Hz / "@ + p7;
    lemma_grouping(t3, " ch S16_LE and got "@, p5);
    lemma_grouping(t3, " ch S16_LE and got "@ + p5, " Hz / "@);
    lemma_grouping(t3, " ch S16_LE and got "@ + p5 + " Hz / "@, p7);
    lemma_end(t3, part);
    lemma_more(t7, p8, part);
}

// ---- single words --------------------------------------------------------------------------

/// A byte in hexadecimal is `0x` and two digits, which are read back as the byte.
pub proof fn a_byte_is_told_in_two_digits(b: u8)
    ensures
        jpeg::hex_byte(b).len() == 4,
        jpeg::hex_byte(b).take(2) == "0x"@,
        text::unsigned_value(jpeg::hex_byte(b).skip(2), 16, 255) == Some(b as nat),
{
    reveal_strlit("0x");
    text::a_number_is_read_back_as_it_was_written(b as nat, 16, 2, 255);
    reveal_with_fuel(text::numeral, 3);
    let digits = text::zero_padded(text::numeral(b as nat, 16), 2);
    assert(digits.len() == 2);
    assert(jpeg::hex_byte(b).take(2) =~= "0x"@);
    assert(jpeg::hex_byte(b).skip(2) =~= digits);
}

/// An error of the capture device is told by what it is, with its own words behind that.
pub proof fn a_capture_error_has_its_own_words(e: CaptureError)
    ensures
        e matches CaptureError::Timeout(after) ==> text::mentions(
            e.words(),
            text::duration(after as nat),
        ),
        e matches CaptureError::BadFrame(what) ==> text::mentions(e.words(), what@),
        e matches CaptureError::Io(io) ==> text::mentions(e.words(), io.text@),
        e matches CaptureError::Config(what) ==> text::mentions(e.words(), what@),
{
    match e {
        CaptureError::Disconnected => {},
        CaptureError::Timeout(after) => {
            let part = text::duration(after as nat);
            assert(e.words() =~= "no frame within "@ + part + seq![]);
            lemma_part("no frame within "@, part, seq![]);
        },
        CaptureError::BadFrame(what) => {
            assert(e.words() =~= "unusable frame: "@ + what@ + seq![]);
            lemma_part("unusable frame: "@, what@, seq![]);
        },
        CaptureError::Io(io) => {
            assert(e.words() =~= "capture I/O error: "@ + io.text@ + seq![]);
            lemma_part("capture I/O error: "@, io.text@, seq![]);
        },
        CaptureError::Config(what) => {
            assert(e.words() =~= "capture configuration: "@ + what@ + seq![]);
            lemma_part("capture configuration: "@, what@, seq![]);
        },
    }
}

/// A release that was not sent is told apart from one that was, with the reason.
pub proof fn a_release_that_was_not_sent_is_told(why: String)
    ensures
        keys::released(None) != keys::released(Some(why)),
        text::mentions(keys::released(Some(why)), why@),
        text::mentions(keys::released(Some(why)), "UNSENT"@),
{
    reveal_strlit("[release-all] keyboard report sent");
    reveal_strlit("[release-all] keyboard report UNSENT: ");
    reveal_strlit("UNSENT");
    reveal_strlit("[release-all] keyboard report ");
    reveal_strlit(": ");
    let words = keys::released(Some(why));
    assert(words =~= "[release-all] keyboard report UNSENT: "@ + why@ + seq![]);
    lemma_part("[release-all] keyboard report UNSENT: "@, why@, seq![]);
    assert(words =~= "[release-all] keyboard report "@ + "UNSENT"@ + (": "@ + why@));
    lemma_part("[release-all] keyboard report "@, "UNSENT"@, ": "@ + why@);
    assert(words[30] == 'U');
    assert(keys::released(None)[30] == 's');
}

// ---- the listing ---------------------------------------------------------------------------

/// A node that was given is marked with an arrow in the listing, and no other is.
pub proof fn a_given_node_is_marked(
    v: VideoView,
    t: SerialView,
    chosen: Option<path::Spelled>,
)
    ensures
        listing::video_line(v, chosen).take(2) == "->"@ <==> chosen is Some && chosen->0.path
            == v.dev.path,
        listing::serial_line(t, chosen).take(2) == "->"@ <==> chosen is Some && chosen->0.path
            == t.dev.path,
{
    reveal_strlit("->");
    reveal_strlit("  ");
    let (a, b) = (listing::video_line(v, chosen), listing::serial_line(t, chosen));
    assert(a.take(2) =~= listing::mark_words(chosen, v.dev.path));
    assert(b.take(2) =~= listing::mark_words(chosen, t.dev.path));
    assert("->"@[0] == '-' && "  "@[0] == ' ');
}

/// A pair is marked where something was given and the pair has all of it.
pub proof fn a_pair_with_all_that_was_given_is_marked(p: PairView, c: ConstraintsView)
    ensures
        listing::pair_line(p, c).take(2) == "->"@ <==> (c.video is Some || c.serial is Some) && (
        c.video is Some ==> p.video.dev.path == c.video->0.path) && (c.serial is Some
            ==> p.serial.dev.path == c.serial->0.path),
{
    reveal_strlit("->");
    reveal_strlit("  ");
    assert(listing::pair_line(p, c).take(2) =~= listing::pair_mark(p, c));
    assert("->"@[0] == '-' && "  "@[0] == ' ');
}

/// What a node said of itself is told as it said it, and a node that said nothing is told apart from
/// one that was not asked and from one whose probe failed.
pub proof fn what_a_node_said_is_told(v: VideoView)
    ensures
        v.is_capture == Some(true) <==> v.capture_note() == "capture"@,
        v.is_capture == Some(false) <==> v.capture_note() == "metadata (not a capture node)"@,
        v.is_capture is None && v.probe_error is Some <==> v.capture_note()
            == "capture status unknown (probe failed)"@,
        v.is_capture is None && v.probe_error is None && v.probed <==> v.capture_note()
            == "capture status unknown"@,
        v.is_capture is None && v.probe_error is None && !v.probed <==> v.capture_note()
            == "not probed (no topological pairing candidate)"@,
{
    reveal_strlit("capture");
    reveal_strlit("metadata (not a capture node)");
    reveal_strlit("capture status unknown (probe failed)");
    reveal_strlit("capture status unknown");
    reveal_strlit("not probed (no topological pairing candidate)");
    assert("capture"@.len() == 7 && "metadata (not a capture node)"@.len() == 29
        && "capture status unknown (probe failed)"@.len() == 37 && "capture status unknown"@.len()
        == 22 && "not probed (no topological pairing candidate)"@.len() == 45);
}

/// A path that pairs with nothing is told with its own flag, and the other flag is asked for.
pub proof fn the_other_half_is_asked_for(
    path: path::Spelled,
    inventory: discovery::InventoryView,
)
    ensures
        text::mentions(
            (ErrorView::ConstraintUnpaired { kind: NodeKind::Video, path, inventory }).words(),
            "--video"@ + " "@ + path.text,
        ),
        text::mentions(
            (ErrorView::ConstraintUnpaired { kind: NodeKind::Video, path, inventory }).words(),
            "Pass "@ + "--serial"@ + " as well."@,
        ),
        text::mentions(
            (ErrorView::ConstraintUnpaired { kind: NodeKind::Serial, path, inventory }).words(),
            "--serial"@ + " "@ + path.text,
        ),
        text::mentions(
            (ErrorView::ConstraintUnpaired { kind: NodeKind::Serial, path, inventory }).words(),
            "Pass "@ + "--video"@ + " as well."@,
        ),
{
    lemma_unpaired(NodeKind::Video, path, inventory, "--video"@, "--serial"@, "serial"@);
    lemma_unpaired(NodeKind::Serial, path, inventory, "--serial"@, "--video"@, "video"@);
}

proof fn lemma_unpaired(
    kind: NodeKind,
    path: path::Spelled,
    inventory: discovery::InventoryView,
    flag: Seq<char>,
    other: Seq<char>,
    name: Seq<char>,
)
    requires
        kind.flag_words() == flag,
        kind.counterpart().flag_words() == other,
        kind.counterpart().words() == name,
    ensures
        text::mentions(
            (ErrorView::ConstraintUnpaired { kind, path, inventory }).words(),
            flag + " "@ + path.text,
        ),
        text::mentions(
            (ErrorView::ConstraintUnpaired { kind, path, inventory }).words(),
            "Pass "@ + other + " as well."@,
        ),
{
    let t0 = flag + " "@;
    let t1 = t0 + path.text;
    let t2 = t1 + " does not pair with any "@ + name + " node by USB topology, so the "@ + name
        + " node cannot be inferred.\n"@;
    let t3 = t2 + listing::inventory_words(inventory);
    let t4 = t3 + "Pass "@;
    let t5 = t4 + other;
    let t6 = t5 + " as well."@;
    assert((ErrorView::ConstraintUnpaired { kind, path, inventory }).words() == t6);
    lemma_whole(t1);
    lemma_more(t1, " does not pair with any "@, t1);
    lemma_more(t1 + " does not pair with any "@, name, t1);
    lemma_more(
        t1 + " does not pair with any "@ + name,
        " node by USB topology, so the "@,
        t1,
    );
    lemma_more(
        t1 + " does not pair with any "@ + name + " node by USB topology, so the "@,
        name,
        t1,
    );
    lemma_more(
        t1 + " does not pair with any "@ + name + " node by USB topology, so the "@ + name,
        " node cannot be inferred.\n"@,
        t1,
    );
    lemma_more(t2, listing::inventory_words(inventory), t1);
    lemma_more(t3, "Pass "@, t1);
    lemma_more(t4, other, t1);
    lemma_more(t5, " as well."@, t1);
    let part = "Pass "@ + other + " as well."@;
    lemma_grouping(t3, "Pass "@, other);
    lemma_grouping(t3, "Pass "@ + other, " as well."@);
    lemma_end(t3, part);
}

/// What a given path left to choose from is reported as it is: all nodes and cards, and the pairs
/// that have the path.
pub proof fn what_is_left_is_reported(
    inv: discovery::InventoryView,
    kind: NodeKind,
    dev: path::PathView,
    p: PairView,
)
    ensures
        ({
            let left = inv.retaining(kind, dev);
            &&& left.videos == inv.videos
            &&& left.serials == inv.serials
            &&& left.cards == inv.cards
            &&& left.pairs.contains(p) <==> inv.pairs.contains(p) && (if kind == NodeKind::Video {
                p.video.dev.path == dev
            } else {
                p.serial.dev.path == dev
            })
        }),
{
    discovery::lemma_pairs_with(inv.pairs, kind, dev, p);
}

/// The evidence of a hub is not proof, and says so; the kernel's own word is.
pub proof fn only_the_kernels_word_is_proof(e: EvidenceView)
    ensures
        e.is_proof() <==> e is SameDevice || e is PortPeer,
        e is InternalHub ==> text::mentions(e.words(), "degraded"@),
{
    if let EvidenceView::InternalHub { hub } = e {
        reveal_strlit("internal hub (degraded)");
        reveal_strlit("internal hub (");
        reveal_strlit("degraded");
        reveal_strlit(")");
        assert("internal hub (degraded)"@ =~= "internal hub ("@ + "degraded"@ + ")"@);
        let back = ": both are direct children of the dongle's own hub "@ + hub.words()
            + " — an internal-hub containment test, contained by that hub and by all three vendor ids, which are commodity part numbers rather than a kernel assertion"@;
        assert(e.words() =~= "internal hub ("@ + "degraded"@ + (")"@ + back));
        lemma_part("internal hub ("@, "degraded"@, ")"@ + back);
    }
}

/// Why a video node has no card is told in as many ways as there are.
pub proof fn a_missing_card_is_told_by_its_reason(cards: Seq<nodes::CardView>)
    ensures
        AudioView::NoCard.words() != AudioView::Unknown.words(),
        text::mentions(
            AudioView::Ambiguous(cards).words(),
            "no audio: "@ + text::decimal(cards.len()) + " sound cards"@,
        ),
{
    reveal_strlit("no audio: no sound card belongs to the capture node's USB device");
    reveal_strlit(
        "no audio: the video node was given explicitly and discovery never enumerated it, so there is no USB device to match a sound card against",
    );
    assert(AudioView::NoCard.words()[10] == 'n' && AudioView::Unknown.words()[10] == 't');
    reveal_strlit(
        " sound cards belong to the capture node's USB device, refusing to guess between",
    );
    reveal_strlit(" sound cards");
    reveal_strlit(" belong to the capture node's USB device, refusing to guess between");
    let rest = " belong to the capture node's USB device, refusing to guess between"@;
    assert(" sound cards belong to the capture node's USB device, refusing to guess between"@
        =~= " sound cards"@ + rest);
    let part = "no audio: "@ + text::decimal(cards.len()) + " sound cards"@;
    let back = rest + nodes::card_names(cards);
    assert(AudioView::Ambiguous(cards).words() =~= seq![] + part + back);
    lemma_part(seq![], part, back);
}

/// A given path is noted where discovery does not know it, with its own flag, and nowhere else.
pub proof fn only_an_unknown_path_is_noted(path: path::Spelled, known: bool)
    ensures
        listing::unknown_note(NodeKind::Video, None, known).len() == 0,
        listing::unknown_note(NodeKind::Video, Some(path), true).len() == 0,
        text::mentions(
            listing::unknown_note(NodeKind::Video, Some(path), false),
            "note: "@ + "--video"@ + " "@ + path.text,
        ),
        text::mentions(
            listing::unknown_note(NodeKind::Serial, Some(path), false),
            "note: "@ + "--serial"@ + " "@ + path.text,
        ),
{
    let back = " is not a node discovery enumerated; it will still be used as given.\n"@;
    let video = "note: "@ + "--video"@ + " "@ + path.text;
    lemma_whole(video);
    lemma_more(video, back, video);
    let serial = "note: "@ + "--serial"@ + " "@ + path.text;
    lemma_whole(serial);
    lemma_more(serial, back, serial);
}

/// Two given paths are told as the selection, the video node first, and one alone is not.
pub proof fn two_given_paths_are_told_as_the_selection(
    video: path::Spelled,
    serial: path::Spelled,
)
    ensures
        text::mentions(
            listing::selection_note(
                ConstraintsView { video: Some(video), serial: Some(serial) },
            ),
            "selection: "@ + video.text + " + "@ + serial.text,
        ),
        listing::selection_note(ConstraintsView { video: Some(video), serial: None }).len() == 0,
        listing::selection_note(ConstraintsView { video: None, serial: Some(serial) }).len() == 0,
{
    let front = "selection: "@ + video.text + " + "@ + serial.text;
    lemma_whole(front);
    lemma_more(
        front,
        " — both given explicitly, so discovery is not consulted.\n"@,
        front,
    );
}

/// A size in words is its width, an `x` and its height.
pub proof fn a_size_is_told_width_first(width: nat, height: nat)
    ensures
        decoder::size_words(width, height) == text::decimal(width) + seq!['x'] + text::decimal(
            height,
        ),
{
    reveal_strlit("x");
    assert("x"@ =~= seq!['x']);
}

} // verus!
