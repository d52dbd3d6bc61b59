//! JPEG header parsing without decoding the image.
//!
//! The capture device can emit frames at an old resolution after a format was negotiated, so the
//! size of a frame is what the start-of-frame header of that very frame says.

use vstd::prelude::*;

use crate::text;

verus! {

/// Why a JPEG header could not be read.
#[derive(Debug, Clone, Copy, PartialEq, Eq, Structural)]
pub enum JpegHeaderError {
    /// The data does not begin with a start-of-image marker.
    NotJpeg,
    /// The data ended before a start-of-frame segment.
    Truncated,
    /// Something else than a marker stood where one was expected.
    NotAMarker { offset: usize, found: u8 },
    /// A segment declared a length that cannot be.
    BadSegmentLength { marker: u8, length: u16 },
    /// End-of-image or start-of-scan came before any start-of-frame segment.
    NoStartOfFrame { stopped_at: u8 },
    /// A start-of-frame segment declared a zero width or height.
    ZeroDimension { width: u32, height: u32 },
}

/// A byte in hexadecimal: `0x` and two digits.
pub open spec fn hex_byte(b: u8) -> Seq<char> {
    "0x"@ + text::zero_padded(text::numeral(b as nat, 16), 2)
}

/// Appends a byte in hexadecimal to `head`.
fn push_hex_byte(head: String, b: u8) -> (s: String)
    ensures
        s@ == head@ + hex_byte(b),
{
    let mut s = head.concat("0x");
    text::push_padded(&mut s, b as u128, 16, 2);
    assert(s@ =~= head@ + hex_byte(b));
    s
}

impl JpegHeaderError {
    /// The message that this error is reported with.
    pub open spec fn words(&self) -> Seq<char> {
        match self {
            JpegHeaderError::NotJpeg => "no SOI marker at the start of the frame"@,
            JpegHeaderError::Truncated => "truncated before the start-of-frame segment"@,
            JpegHeaderError::NotAMarker { offset, found } => "expected a marker at offset "@
                + text::decimal(*offset as nat) + ", found "@ + hex_byte(*found),
            JpegHeaderError::BadSegmentLength { marker, length } => "segment for marker "@
                + hex_byte(*marker) + " declares an impossible length "@ + text::decimal(
                *length as nat,
            ),
            JpegHeaderError::NoStartOfFrame { stopped_at } => "no start-of-frame segment before "@
                + hex_byte(*stopped_at),
            JpegHeaderError::ZeroDimension { width, height } => "start-of-frame declares "@
                + text::decimal(*width as nat) + "x"@ + text::decimal(*height as nat),
        }
    }

    /// The error in words.
    pub fn text(&self) -> (s: String)
        ensures
            s@ == self.words(),
    {
        match self {
            JpegHeaderError::NotJpeg => "no SOI marker at the start of the frame".to_owned(),
            JpegHeaderError::Truncated => {
                "truncated before the start-of-frame segment".to_owned()
            },
            JpegHeaderError::NotAMarker { offset, found } => {
                let mut s = "expected a marker at offset ".to_owned();
                text::push_decimal(&mut s, *offset as u128);
                push_hex_byte(s.concat(", found "), *found)
            },
            JpegHeaderError::BadSegmentLength { marker, length } => {
                let mut s = push_hex_byte("segment for marker ".to_owned(), *marker);
                s.append(" declares an impossible length ");
                text::push_decimal(&mut s, *length as u128);
                s
            },
            JpegHeaderError::NoStartOfFrame { stopped_at } => {
                push_hex_byte("no start-of-frame segment before ".to_owned(), *stopped_at)
            },
            JpegHeaderError::ZeroDimension { width, height } => {
                let mut s = "start-of-frame declares ".to_owned();
                text::push_decimal(&mut s, *width as u128);
                s.append("x");
                text::push_decimal(&mut s, *height as u128);
                s
            },
        }
    }
}

const MARKER_SOI: u8 = 0xD8;

const MARKER_EOI: u8 = 0xD9;

const MARKER_SOS: u8 = 0xDA;

const MARKER_DHT: u8 = 0xC4;

const MARKER_JPG: u8 = 0xC8;

const MARKER_DAC: u8 = 0xCC;

const MARKER_TEM: u8 = 0x01;

/// The markers that carry neither a length nor a payload.
pub open spec fn standalone(m: u8) -> bool {
    m == 0xD8 || m == 0x01 || 0xD0 <= m <= 0xD7
}

/// The markers that open a frame header. Three codes of their range mean something else.
pub open spec fn starts_frame(m: u8) -> bool {
    0xC0 <= m <= 0xCF && m != 0xC4 && m != 0xC8 && m != 0xCC
}

/// The first position from `at` on that holds no fill byte.
pub open spec fn after_fill(data: Seq<u8>, at: int) -> int
    decreases data.len() - at,
{
    if 0 <= at < data.len() && data[at] == 0xFF {
        after_fill(data, at + 1)
    } else {
        at
    }
}

/// The marker code that stands at `at` behind at least one fill byte, and the position after it.
pub open spec fn marker_at(data: Seq<u8>, at: int) -> Result<(u8, int), JpegHeaderError> {
    let p = after_fill(data, at);
    if at >= data.len() {
        Err(JpegHeaderError::Truncated)
    } else if data[at] != 0xFF {
        Err(JpegHeaderError::NotAMarker { offset: at as usize, found: data[at] })
    } else if p >= data.len() {
        Err(JpegHeaderError::Truncated)
    } else if data[p] == 0x00 {
        Err(JpegHeaderError::NotAMarker { offset: p as usize, found: 0x00 })
    } else {
        Ok((data[p], p + 1))
    }
}

/// The big-endian number of two bytes at `off`.
pub open spec fn word_at(data: Seq<u8>, off: int) -> Option<int> {
    if off + 1 < data.len() {
        Some(data[off] * 256 + data[off + 1])
    } else {
        None
    }
}

/// The size in the frame header whose length field stands at `at`: height before width.
pub open spec fn frame_header(data: Seq<u8>, at: int, marker: u8) -> Result<
    (u32, u32),
    JpegHeaderError,
> {
    match word_at(data, at) {
        None => Err(JpegHeaderError::Truncated),
        Some(length) => if length < 8 {
            Err(JpegHeaderError::BadSegmentLength { marker, length: length as u16 })
        } else {
            match (word_at(data, at + 3), word_at(data, at + 5)) {
                (Some(height), Some(width)) => if width == 0 || height == 0 {
                    Err(
                        JpegHeaderError::ZeroDimension { width: width as u32, height: height as u32 },
                    )
                } else {
                    Ok((width as u32, height as u32))
                },
                _ => Err(JpegHeaderError::Truncated),
            }
        },
    }
}

/// Where the segment whose length field stands at `at` ends.
pub open spec fn segment_end(data: Seq<u8>, at: int, marker: u8) -> Result<int, JpegHeaderError> {
    match word_at(data, at) {
        None => Err(JpegHeaderError::Truncated),
        Some(length) => if length < 2 {
            Err(JpegHeaderError::BadSegmentLength { marker, length: length as u16 })
        } else if at + length > data.len() {
            Err(JpegHeaderError::Truncated)
        } else {
            Ok(at + length)
        },
    }
}

/// The size that the first frame header from `at` on declares.
pub open spec fn first_frame(data: Seq<u8>, at: int) -> Result<(u32, u32), JpegHeaderError>
    decreases data.len() - at,
    when 0 <= at <= data.len()
    via first_frame_advances
{
    match marker_at(data, at) {
        Err(e) => Err(e),
        Ok((marker, next)) => if standalone(marker) {
            first_frame(data, next)
        } else if marker == 0xDA || marker == 0xD9 {
            Err(JpegHeaderError::NoStartOfFrame { stopped_at: marker })
        } else if starts_frame(marker) {
            frame_header(data, next, marker)
        } else {
            match segment_end(data, next, marker) {
                Err(e) => Err(e),
                Ok(end) => first_frame(data, end),
            }
        },
    }
}

#[via_fn]
proof fn first_frame_advances(data: Seq<u8>, at: int) {
    lemma_marker_advances(data, at);
}

/// The size of a JPEG: that of its first frame header, behind a start-of-image marker.
pub open spec fn header_dimensions(data: Seq<u8>) -> Result<(u32, u32), JpegHeaderError> {
    match marker_at(data, 0) {
        Err(e) => Err(e),
        Ok((marker, next)) => if marker == 0xD8 {
            first_frame(data, next)
        } else {
            Err(JpegHeaderError::NotJpeg)
        },
    }
}

proof fn lemma_after_fill(data: Seq<u8>, at: int)
    requires
        0 <= at <= data.len(),
    ensures
        at <= after_fill(data, at) <= data.len(),
        after_fill(data, at) < data.len() ==> data[after_fill(data, at)] != 0xFF,
        forall|i: int| at <= i < after_fill(data, at) ==> data[i] == 0xFF,
    decreases data.len() - at,
{
    if at < data.len() && data[at] == 0xFF {
        lemma_after_fill(data, at + 1);
    }
}

proof fn lemma_marker_advances(data: Seq<u8>, at: int)
    requires
        0 <= at <= data.len(),
    ensures
        marker_at(data, at) matches Ok((m, next)) ==> at < next <= data.len(),
{
    lemma_after_fill(data, at);
}

/// Reads `(width, height)` from the first start-of-frame header.
///
/// That the header can be read says nothing of the image data behind it.
pub fn dimensions(jpeg: &[u8]) -> (r: Result<(u32, u32), JpegHeaderError>)
    ensures
        r == header_dimensions(jpeg@),
{
    let mut at: usize = 0;
    match read_marker(jpeg, &mut at) {
        Ok(marker) => {
            if marker != MARKER_SOI {
                return Err(JpegHeaderError::NotJpeg);
            }
        },
        Err(e) => {
            return Err(e);
        },
    }
    loop
        invariant
            at <= jpeg@.len(),
            header_dimensions(jpeg@) == first_frame(jpeg@, at as int),
        decreases jpeg@.len() - at,
    {
        let ghost before = at as int;
        proof {
            lemma_marker_advances(jpeg@, before);
        }
        let marker: u8 = match read_marker(jpeg, &mut at) {
            Ok(marker) => marker,
            Err(e) => {
                return Err(e);
            },
        };
        if marker == MARKER_SOI || marker == MARKER_TEM || (0xD0 <= marker && marker <= 0xD7) {
            continue ;
        }
        if marker == MARKER_SOS || marker == MARKER_EOI {
            return Err(JpegHeaderError::NoStartOfFrame { stopped_at: marker });
        }
        if 0xC0 <= marker && marker <= 0xCF && marker != MARKER_DHT && marker != MARKER_JPG
            && marker != MARKER_DAC {
            return read_frame_header(jpeg, at, marker);
        }
        match skip_segment(jpeg, &mut at, marker) {
            Ok(()) => {},
            Err(e) => {
                return Err(e);
            },
        }
    }
}

/// Reads the frame header whose length field stands at `at`.
fn read_frame_header(data: &[u8], at: usize, marker: u8) -> (r: Result<
    (u32, u32),
    JpegHeaderError,
>)
    requires
        at <= data@.len(),
    ensures
        r == frame_header(data@, at as int, marker),
{
    let length: u16 = match read_u16(data, at) {
        Some(length) => length,
        None => {
            return Err(JpegHeaderError::Truncated);
        },
    };
    if length < 8 {
        return Err(JpegHeaderError::BadSegmentLength { marker, length });
    }
    if data.len() - at < 7 {
        return Err(JpegHeaderError::Truncated);
    }
    let height: u32 = match read_u16(data, at + 3) {
        Some(height) => height as u32,
        None => {
            return Err(JpegHeaderError::Truncated);
        },
    };
    let width: u32 = match read_u16(data, at + 5) {
        Some(width) => width as u32,
        None => {
            return Err(JpegHeaderError::Truncated);
        },
    };
    if width == 0 || height == 0 {
        return Err(JpegHeaderError::ZeroDimension { width, height });
    }
    Ok((width, height))
}

/// Reads one marker code and the fill bytes before it. `at` is left behind the code.
fn read_marker(data: &[u8], at: &mut usize) -> (r: Result<u8, JpegHeaderError>)
    requires
        *old(at) <= data@.len(),
    ensures
        *final(at) <= data@.len(),
        match (r, marker_at(data@, *old(at) as int)) {
            (Ok(m), Ok((marker, next))) => m == marker && *final(at) == next,
            (Err(e), Err(want)) => e == want && *final(at) == *old(at),
            _ => false,
        },
{
    let start: usize = *at;
    let mut p: usize = start;
    if p >= data.len() {
        return Err(JpegHeaderError::Truncated);
    }
    if data[p] != 0xFF {
        return Err(JpegHeaderError::NotAMarker { offset: p, found: data[p] });
    }
    while p < data.len() && data[p] == 0xFF
        invariant
            start <= p <= data@.len(),
            after_fill(data@, start as int) == after_fill(data@, p as int),
        decreases data@.len() - p,
    {
        p = p + 1;
    }
    if p >= data.len() {
        return Err(JpegHeaderError::Truncated);
    }
    if data[p] == 0x00 {
        return Err(JpegHeaderError::NotAMarker { offset: p, found: 0x00 });
    }
    *at = p + 1;
    Ok(data[p])
}

/// Skips a segment. `at` stands at the length field on entry and behind the segment on success.
fn skip_segment(data: &[u8], at: &mut usize, marker: u8) -> (r: Result<(), JpegHeaderError>)
    requires
        *old(at) <= data@.len(),
    ensures
        *final(at) <= data@.len(),
        match (r, segment_end(data@, *old(at) as int, marker)) {
            (Ok(()), Ok(end)) => *final(at) == end && *final(at) > *old(at),
            (Err(e), Err(want)) => e == want && *final(at) == *old(at),
            _ => false,
        },
{
    let length: u16 = match read_u16(data, *at) {
        Some(length) => length,
        None => {
            return Err(JpegHeaderError::Truncated);
        },
    };
    if length < 2 {
        return Err(JpegHeaderError::BadSegmentLength { marker, length });
    }
    if data.len() - *at < length as usize {
        return Err(JpegHeaderError::Truncated);
    }
    *at = *at + length as usize;
    Ok(())
}

/// The big-endian number of two bytes at `off`, if both are there.
pub(crate) fn read_u16(data: &[u8], off: usize) -> (r: Option<u16>)
    requires
        off <= data@.len(),
    ensures
        match (r, word_at(data@, off as int)) {
            (Some(v), Some(w)) => v == w,
            (None, None) => true,
            _ => false,
        },
{
    if data.len() - off < 2 {
        return None;
    }
    Some(data[off] as u16 * 256 + data[off + 1] as u16)
}

/// A size that was read is one a frame can have: neither side is zero, and both fit in the two
/// bytes they are stored in.
pub proof fn dimensions_are_never_zero(data: Seq<u8>)
    ensures
        header_dimensions(data) matches Ok((w, h)) ==> 0 < w <= 0xffff && 0 < h <= 0xffff,
{
    match marker_at(data, 0) {
        Ok((marker, next)) => {
            lemma_marker_advances(data, 0);
            lemma_first_frame_nonzero(data, next);
        },
        Err(_) => {},
    }
}

proof fn lemma_first_frame_nonzero(data: Seq<u8>, at: int)
    requires
        0 <= at <= data.len(),
    ensures
        first_frame(data, at) matches Ok((w, h)) ==> 0 < w <= 0xffff && 0 < h <= 0xffff,
    decreases data.len() - at,
{
    lemma_marker_advances(data, at);
    if let Ok((marker, next)) = marker_at(data, at) {
        if standalone(marker) {
            lemma_first_frame_nonzero(data, next);
        } else if let Ok(end) = segment_end(data, next, marker) {
            lemma_first_frame_nonzero(data, end);
        }
    }
}

/// Cutting a frame short can hide its size and can never change it: what a prefix reports is
/// what the whole reports, or that the data was truncated.
pub proof fn a_cut_frame_reports_the_same_or_truncation(data: Seq<u8>, cut: int)
    requires
        0 <= cut <= data.len(),
    ensures
        header_dimensions(data.take(cut)) == header_dimensions(data) || header_dimensions(
            data.take(cut),
        ) == Err::<(u32, u32), JpegHeaderError>(JpegHeaderError::Truncated),
{
    lemma_marker_cut(data, cut, 0);
    lemma_marker_advances(data.take(cut), 0);
    if let Ok((marker, next)) = marker_at(data.take(cut), 0) {
        lemma_first_frame_cut(data, cut, next);
    }
}

proof fn lemma_after_fill_cut(data: Seq<u8>, cut: int, at: int)
    requires
        0 <= at <= cut <= data.len(),
    ensures
        after_fill(data.take(cut), at) == after_fill(data, at) || after_fill(data.take(cut), at)
            == cut,
    decreases cut - at,
{
    if at < cut && data[at] == 0xFF {
        lemma_after_fill_cut(data, cut, at + 1);
    }
}

proof fn lemma_marker_cut(data: Seq<u8>, cut: int, at: int)
    requires
        0 <= at <= cut <= data.len(),
    ensures
        marker_at(data.take(cut), at) == marker_at(data, at) || marker_at(data.take(cut), at)
            == Err::<(u8, int), JpegHeaderError>(JpegHeaderError::Truncated),
{
    lemma_after_fill_cut(data, cut, at);
    lemma_after_fill(data, at);
    lemma_after_fill(data.take(cut), at);
}

proof fn lemma_first_frame_cut(data: Seq<u8>, cut: int, at: int)
    requires
        0 <= at <= cut <= data.len(),
    ensures
        first_frame(data.take(cut), at) == first_frame(data, at) || first_frame(data.take(cut), at)
            == Err::<(u32, u32), JpegHeaderError>(JpegHeaderError::Truncated),
    decreases cut - at,
{
    let part = data.take(cut);
    lemma_marker_cut(data, cut, at);
    lemma_marker_advances(part, at);
    if let Ok((marker, next)) = marker_at(part, at) {
        if standalone(marker) {
            lemma_first_frame_cut(data, cut, next);
        } else if let Ok(end) = segment_end(part, next, marker) {
            if !starts_frame(marker) {
                assert(segment_end(data, next, marker) == segment_end(part, next, marker));
                lemma_first_frame_cut(data, cut, end);
            }
        }
    }
}

/// Fill bytes in front of a frame do not change the size that is read.
pub proof fn fill_in_front_changes_nothing(data: Seq<u8>)
    requires
        header_dimensions(data) is Ok,
    ensures
        header_dimensions(seq![0xFFu8] + data) == header_dimensions(data),
{
    let padded = seq![0xFFu8] + data;
    lemma_marker_shift(data, 0);
    lemma_marker_advances(data, 0);
    assert(after_fill(padded, 0) == after_fill(padded, 1));
    if let Ok((marker, next)) = marker_at(data, 0) {
        assert(marker_at(padded, 0) == marker_at(padded, 1));
        lemma_first_frame_shift(data, next);
    }
}

proof fn lemma_after_fill_shift(data: Seq<u8>, at: int)
    requires
        0 <= at <= data.len(),
    ensures
        after_fill(seq![0xFFu8] + data, at + 1) == after_fill(data, at) + 1,
    decreases data.len() - at,
{
    let padded = seq![0xFFu8] + data;
    if at < data.len() {
        assert(padded[at + 1] == data[at]);
        if data[at] == 0xFF {
            lemma_after_fill_shift(data, at + 1);
        }
    }
}

proof fn lemma_marker_shift(data: Seq<u8>, at: int)
    requires
        0 <= at <= data.len(),
    ensures
        marker_at(data, at) matches Ok((m, next)) ==> marker_at(seq![0xFFu8] + data, at + 1) == Ok::<
            (u8, int),
            JpegHeaderError,
        >((m, next + 1)),
{
    lemma_after_fill_shift(data, at);
    lemma_after_fill(data, at);
}

proof fn lemma_first_frame_shift(data: Seq<u8>, at: int)
    requires
        0 <= at <= data.len(),
        first_frame(data, at) is Ok,
    ensures
        first_frame(seq![0xFFu8] + data, at + 1) == first_frame(data, at),
    decreases data.len() - at,
{
    let padded = seq![0xFFu8] + data;
    lemma_marker_shift(data, at);
    lemma_marker_advances(data, at);
    if let Ok((marker, next)) = marker_at(data, at) {
        if standalone(marker) {
            lemma_first_frame_shift(data, next);
        } else if starts_frame(marker) {
            assert(word_at(padded, next + 1) == word_at(data, next));
            assert(word_at(padded, next + 4) == word_at(data, next + 3));
            assert(word_at(padded, next + 6) == word_at(data, next + 5));
        } else {
            assert(word_at(padded, next + 1) == word_at(data, next));
            if let Ok(end) = segment_end(data, next, marker) {
                lemma_first_frame_shift(data, end);
            }
        }
    }
}

} // verus!
