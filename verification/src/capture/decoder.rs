//! MJPEG decode: RGBA out, strict mode, under the dimension ceiling.
//!
//! A frame's own header decides how large the output has to be, and the header is untrusted
//! bytes. So the ceiling is applied in two places that do not depend on each other: in the JPEG
//! decoder's own limits, and in [`Decoder::decode`] before anything is allocated.

use vstd::prelude::*;
use zune_core::bytestream::ZCursor;
use zune_jpeg::JpegDecoder;

use super::{layout, CompressedFrame, DecodedFrame, MAX_HEIGHT, MAX_RGBA_BYTES, MAX_WIDTH};
use crate::text;

verus! {

/// Why a frame did not decode.
#[derive(Debug)]
pub enum DecodeError {
    /// The JPEG decoder refused the frame. In strict mode this is what a truncated or corrupt
    /// frame produces.
    Jpeg(String),
    /// The JPEG decoder read another size out of the headers than the frame says it has.
    DimensionMismatch { header_w: u32, header_h: u32, decoder_w: u32, decoder_h: u32 },
    /// The JPEG decoder wants another output size than RGBA of these dimensions takes.
    UnexpectedBufferSize { width: u32, height: u32, wanted: usize, expected: usize },
    /// The headers parsed and the JPEG decoder states no size.
    NoDimensions,
    /// The size is over the ceiling. Refused before the output is sized.
    DimensionsTooLarge { width: u32, height: u32, max_width: u32, max_height: u32 },
    /// The components are laid out in a way on which the JPEG decoder can panic. Refused before
    /// the image data is decoded.
    UnsupportedLayout,
}

/// A size in words: `1920x1080`.
pub open spec fn size_words(width: nat, height: nat) -> Seq<char> {
    text::decimal(width) + "x"@ + text::decimal(height)
}

/// Appends a size.
pub fn push_size(out: &mut String, width: u32, height: u32)
    ensures
        final(out)@ == old(out)@ + size_words(width as nat, height as nat),
{
    text::push_decimal(out, width as u128);
    out.append("x");
    text::push_decimal(out, height as u128);
    assert(out@ =~= old(out)@ + size_words(width as nat, height as nat));
}

impl DecodeError {
    /// The message that this error is reported with.
    pub open spec fn words(&self) -> Seq<char> {
        match self {
            DecodeError::Jpeg(what) => "jpeg decode failed: "@ + what@,
            DecodeError::DimensionMismatch { header_w, header_h, decoder_w, decoder_h } =>
                "dimension disagreement: header says "@ + size_words(
                *header_w as nat,
                *header_h as nat,
            ) + ", decoder says "@ + size_words(*decoder_w as nat, *decoder_h as nat),
            DecodeError::UnexpectedBufferSize { width, height, wanted, expected } =>
                "decoder wants "@ + text::decimal(*wanted as nat) + " bytes for "@ + size_words(
                *width as nat,
                *height as nat,
            ) + " RGBA, expected "@ + text::decimal(*expected as nat),
            DecodeError::NoDimensions => "decoder reported no dimensions"@,
            DecodeError::DimensionsTooLarge { width, height, max_width, max_height } =>
                "frame claims "@ + size_words(*width as nat, *height as nat) + ", over the "@
                + size_words(*max_width as nat, *max_height as nat) + " ceiling"@,
            DecodeError::UnsupportedLayout => "the decoder cannot take this component layout"@,
        }
    }

    /// The error in words.
    pub fn text(&self) -> (s: String)
        ensures
            s@ == self.words(),
    {
        match self {
            DecodeError::Jpeg(what) => "jpeg decode failed: ".to_owned().concat(what.as_str()),
            DecodeError::DimensionMismatch { header_w, header_h, decoder_w, decoder_h } => {
                let mut s = "dimension disagreement: header says ".to_owned();
                push_size(&mut s, *header_w, *header_h);
                s.append(", decoder says ");
                push_size(&mut s, *decoder_w, *decoder_h);
                s
            },
            DecodeError::UnexpectedBufferSize { width, height, wanted, expected } => {
                let mut s = "decoder wants ".to_owned();
                text::push_decimal(&mut s, *wanted as u128);
                s.append(" bytes for ");
                push_size(&mut s, *width, *height);
                s.append(" RGBA, expected ");
                text::push_decimal(&mut s, *expected as u128);
                s
            },
            DecodeError::NoDimensions => "decoder reported no dimensions".to_owned(),
            DecodeError::DimensionsTooLarge { width, height, max_width, max_height } => {
                let mut s = "frame claims ".to_owned();
                push_size(&mut s, *width, *height);
                s.append(", over the ");
                push_size(&mut s, *max_width, *max_height);
                s.append(" ceiling");
                s
            },
            DecodeError::UnsupportedLayout => {
                "the decoder cannot take this component layout".to_owned()
            },
        }
    }
}

/// The layout of the pixels that a JPEG is decoded to.
#[derive(Debug, Clone, Copy, PartialEq, Eq, Structural)]
pub enum ColorSpace {
    RGB,
    RGBA,
}

impl ColorSpace {
    /// Bytes per pixel.
    pub open spec fn components(self) -> nat {
        match self {
            ColorSpace::RGB => 3,
            ColorSpace::RGBA => 4,
        }
    }
}

/// The settings of the JPEG decoder.
#[derive(Debug, Clone, Copy, PartialEq, Eq, Structural)]
pub struct DecoderOptions {
    pub colorspace: ColorSpace,
    pub strict: bool,
    pub width_limit: usize,
    pub height_limit: usize,
}

impl DecoderOptions {
    /// Whether anything that is wrong with a frame makes it fail.
    pub fn strict_mode(&self) -> (r: bool)
        ensures
            r == self.strict,
    {
        self.strict
    }

    /// The layout that pixels are decoded to.
    pub fn jpeg_get_out_colorspace(&self) -> (r: ColorSpace)
        ensures
            r == self.colorspace,
    {
        self.colorspace
    }

    /// The widest frame that the JPEG decoder takes.
    pub fn max_width(&self) -> (r: usize)
        ensures
            r == self.width_limit,
    {
        self.width_limit
    }

    /// The tallest frame that the JPEG decoder takes.
    pub fn max_height(&self) -> (r: usize)
        ensures
            r == self.height_limit,
    {
        self.height_limit
    }
}

/// The settings that frames are decoded with: to RGBA, in strict mode, with the dimension ceiling.
pub open spec fn standard() -> DecoderOptions {
    DecoderOptions {
        colorspace: ColorSpace::RGBA,
        strict: true,
        width_limit: MAX_WIDTH as usize,
        height_limit: MAX_HEIGHT as usize,
    }
}

/// What the JPEG decoder made of a frame's headers.
#[derive(Debug, Clone, Copy)]
pub struct JpegHeaders {
    pub dimensions: Option<(usize, usize)>,
    /// How many bytes the decoded frame takes.
    pub buffer_size: Option<usize>,
}

/// What `JpegDecoder` of zune-jpeg reads out of the headers of `jpeg` under these options: the
/// dimensions and the size of the output, or its error in words.
pub uninterp spec fn zune_headers_of(
    jpeg: Seq<u8>,
    colorspace_components: nat,
    strict: bool,
    width_limit: nat,
    height_limit: nat,
) -> Result<(Option<(nat, nat)>, Option<nat>), Seq<char>>;

/// Whether decoding `jpeg` with zune-jpeg under these options into a buffer of `len` bytes can
/// end in `outcome`: with these bytes in the buffer, or with this error. The routines that are
/// used depend on the processor, so this is a relation and not a function.
pub uninterp spec fn zune_may_decode(
    jpeg: Seq<u8>,
    colorspace_components: nat,
    strict: bool,
    width_limit: nat,
    height_limit: nat,
    len: nat,
    outcome: Result<Seq<u8>, Seq<char>>,
) -> bool;

/// The header result for these options.
pub open spec fn headers_of(jpeg: Seq<u8>, options: DecoderOptions) -> Result<
    (Option<(nat, nat)>, Option<nat>),
    Seq<char>,
> {
    zune_headers_of(
        jpeg,
        options.colorspace.components(),
        options.strict,
        options.width_limit as nat,
        options.height_limit as nat,
    )
}

/// Whether decoding under these options can end so.
pub open spec fn may_decode(
    jpeg: Seq<u8>,
    options: DecoderOptions,
    len: nat,
    outcome: Result<Seq<u8>, Seq<char>>,
) -> bool {
    zune_may_decode(
        jpeg,
        options.colorspace.components(),
        options.strict,
        options.width_limit as nat,
        options.height_limit as nat,
        len,
        outcome,
    )
}

/// A number of type `usize` that may be missing, as a number.
pub open spec fn number(n: Option<usize>) -> Option<nat> {
    match n {
        Some(v) => Some(v as nat),
        None => None,
    }
}

/// Dimensions that may be missing, as numbers.
pub open spec fn numbers(d: Option<(usize, usize)>) -> Option<(nat, nat)> {
    match d {
        Some((w, h)) => Some((w as nat, h as nat)),
        None => None,
    }
}

/// `JpegDecoder::decode_headers` of zune-jpeg on a decoder made by `new_with_options`, and then
/// its `dimensions` and `output_buffer_size`.
///
/// The result is named. Besides, once the headers are decoded the dimensions are there, each of
/// them a sixteen-bit number, and the output size is their product with the bytes per pixel.
#[verifier::external_body]
fn zune_headers(jpeg: &[u8], options: &DecoderOptions) -> (r: Result<JpegHeaders, String>)
    ensures
        zune_headers_of(
            jpeg@,
            options.colorspace.components(),
            options.strict,
            options.width_limit as nat,
            options.height_limit as nat,
        ) == (match r {
            Ok(h) => Ok((numbers(h.dimensions), number(h.buffer_size))),
            Err(e) => Err(e@),
        }),
        match r {
            Ok(h) => match h.dimensions {
                Some((w, height)) => {
                    &&& w <= 0xffff
                    &&& height <= 0xffff
                    &&& w * height * options.colorspace.components() <= usize::MAX ==> number(
                        h.buffer_size,
                    ) == Some((w * height * options.colorspace.components()) as nat)
                },
                None => false,
            },
            Err(_) => true,
        },
{
    let colorspace = match options.colorspace {
        ColorSpace::RGB => zune_core::colorspace::ColorSpace::RGB,
        ColorSpace::RGBA => zune_core::colorspace::ColorSpace::RGBA,
    };
    let zune = zune_core::options::DecoderOptions::default()
        .jpeg_set_out_colorspace(colorspace)
        .set_strict_mode(options.strict)
        .set_max_width(options.width_limit)
        .set_max_height(options.height_limit);
    let mut dec = JpegDecoder::new_with_options(ZCursor::new(jpeg), zune);
    dec.decode_headers().map_err(|e| e.to_string())?;
    Ok(JpegHeaders { dimensions: dec.dimensions(), buffer_size: dec.output_buffer_size() })
}

/// `JpegDecoder::decode_into` of zune-jpeg on a decoder made by `new_with_options`.
///
/// The buffer keeps its length, and what is in it and what is returned is one of the outcomes
/// that decoding these bytes can have. On the layouts that [`layout::returns_on`] leaves out the
/// call can panic: a baseline scan writes past a component's buffer, the scratch row for scaling
/// up is too short, or a component is looked up that is not there. On the others its asserts and
/// its indices hold. That is said of a build in which arithmetic wraps, as it does unless overflow
/// checks are switched on: with them, a damaged frame's running sums can overflow.
#[verifier::external_body]
fn zune_decode_into(jpeg: &[u8], options: &DecoderOptions, out: &mut Vec<u8>) -> (r: Result<
    (),
    String,
>)
    requires
        *options == standard(),
        layout::returns_on(jpeg@),
    ensures
        final(out)@.len() == old(out)@.len(),
        zune_may_decode(
            jpeg@,
            options.colorspace.components(),
            options.strict,
            options.width_limit as nat,
            options.height_limit as nat,
            old(out)@.len(),
            match r {
                Ok(()) => Ok(final(out)@),
                Err(e) => Err(e@),
            },
        ),
{
    let colorspace = match options.colorspace {
        ColorSpace::RGB => zune_core::colorspace::ColorSpace::RGB,
        ColorSpace::RGBA => zune_core::colorspace::ColorSpace::RGBA,
    };
    let zune = zune_core::options::DecoderOptions::default()
        .jpeg_set_out_colorspace(colorspace)
        .set_strict_mode(options.strict)
        .set_max_width(options.width_limit)
        .set_max_height(options.height_limit);
    JpegDecoder::new_with_options(ZCursor::new(jpeg), zune)
        .decode_into(out)
        .map_err(|e| e.to_string())
}

/// A reusable MJPEG decoder.
pub struct Decoder {
    options: DecoderOptions,
    /// Where a frame is decoded before it is known to be whole. Its allocation is reused.
    scratch: Vec<u8>,
}

/// The refusal of a size over the ceiling.
pub open spec fn size_refusal(width: u32, height: u32) -> Option<DecodeError> {
    if super::in_range(width, height) {
        None
    } else {
        Some(
            DecodeError::DimensionsTooLarge {
                width,
                height,
                max_width: MAX_WIDTH,
                max_height: MAX_HEIGHT,
            },
        )
    }
}

/// The refusal of a frame of `width` by `height` in whose headers the JPEG decoder read these
/// dimensions and this output size, if it is refused.
pub open spec fn header_refusal(
    width: u32,
    height: u32,
    dimensions: Option<(nat, nat)>,
    buffer_size: Option<nat>,
) -> Option<DecodeError> {
    match dimensions {
        None => Some(DecodeError::NoDimensions),
        Some((w, h)) => {
            let (dw, dh) = (w as u32, h as u32);
            if size_refusal(dw, dh) is Some {
                size_refusal(dw, dh)
            } else if dw != width || dh != height {
                Some(
                    DecodeError::DimensionMismatch {
                        header_w: width,
                        header_h: height,
                        decoder_w: dw,
                        decoder_h: dh,
                    },
                )
            } else {
                match buffer_size {
                    None => Some(DecodeError::NoDimensions),
                    Some(wanted) => if wanted == dw * dh * 4 {
                        None
                    } else {
                        Some(
                            DecodeError::UnexpectedBufferSize {
                                width: dw,
                                height: dh,
                                wanted: wanted as usize,
                                expected: (dw * dh * 4) as usize,
                            },
                        )
                    },
                }
            }
        },
    }
}

/// Refuses a size over the ceiling.
fn too_large(width: u32, height: u32) -> (r: Result<(), DecodeError>)
    ensures
        match r {
            Ok(()) => size_refusal(width, height) is None,
            Err(e) => size_refusal(width, height) == Some(e),
        },
{
    if super::dimensions_in_range(width, height) {
        Ok(())
    } else {
        Err(
            DecodeError::DimensionsTooLarge {
                width,
                height,
                max_width: MAX_WIDTH,
                max_height: MAX_HEIGHT,
            },
        )
    }
}

/// A size inside the ceiling takes no more bytes than the ceiling does.
pub proof fn a_size_in_range_fits_the_largest_output(width: u32, height: u32)
    requires
        super::in_range(width, height),
    ensures
        width * height * 4 <= MAX_RGBA_BYTES,
{
    assert(width * height <= 4096 * 2304) by (nonlinear_arith)
        requires
            width <= 4096,
            height <= 2304,
    ;
}

/// Holds what the JPEG decoder read in the headers against the frame: how many bytes the output
/// takes, or why the frame is refused.
pub fn check_headers(width: u32, height: u32, headers: Result<JpegHeaders, String>) -> (r: Result<
    usize,
    DecodeError,
>)
    ensures
        match headers {
            Err(what) => r == Err::<usize, DecodeError>(DecodeError::Jpeg(what)),
            Ok(h) => match header_refusal(
                width,
                height,
                numbers(h.dimensions),
                number(h.buffer_size),
            ) {
                Some(e) => r == Err::<usize, DecodeError>(e),
                None => r == Ok::<usize, DecodeError>((width * height * 4) as usize)
                    && super::in_range(width, height) && width * height * 4 <= MAX_RGBA_BYTES,
            },
        },
{
    let h = match headers {
        Ok(h) => h,
        Err(what) => {
            return Err(DecodeError::Jpeg(what));
        },
    };
    let (dw, dh): (u32, u32) = match h.dimensions {
        Some((w, h)) => (w as u32, h as u32),
        None => {
            return Err(DecodeError::NoDimensions);
        },
    };
    match too_large(dw, dh) {
        Ok(()) => {},
        Err(e) => {
            return Err(e);
        },
    }
    if dw != width || dh != height {
        return Err(
            DecodeError::DimensionMismatch {
                header_w: width,
                header_h: height,
                decoder_w: dw,
                decoder_h: dh,
            },
        );
    }
    proof {
        a_size_in_range_fits_the_largest_output(dw, dh);
    }
    let expected: usize = DecodedFrame::expected_len(dw, dh);
    match h.buffer_size {
        None => Err(DecodeError::NoDimensions),
        Some(wanted) => {
            if wanted != expected {
                Err(
                    DecodeError::UnexpectedBufferSize {
                        width: dw,
                        height: dh,
                        wanted,
                        expected,
                    },
                )
            } else {
                Ok(expected)
            }
        },
    }
}

/// Hands over the pixels of `frame`, once the JPEG decoder has said how it went. What was in
/// `out` stays there unless it went well.
pub fn deliver_pixels(
    frame: &CompressedFrame,
    pixels: &Vec<u8>,
    outcome: Result<(), String>,
    out: &mut DecodedFrame,
) -> (r: Result<(), DecodeError>)
    ensures
        match outcome {
            Ok(()) => {
                &&& r is Ok
                &&& final(out).rgba@ == pixels@
                &&& final(out).width == frame.width
                &&& final(out).height == frame.height
                &&& final(out).captured_at == frame.captured_at
                &&& final(out).sequence == frame.sequence
            },
            Err(what) => {
                &&& r == Err::<(), DecodeError>(DecodeError::Jpeg(what))
                &&& *final(out) == *old(out)
            },
        },
{
    match outcome {
        Ok(()) => {
            out.rgba.clear();
            out.rgba.extend_from_slice(pixels.as_slice());
            assert(out.rgba@ =~= pixels@);
            out.width = frame.width;
            out.height = frame.height;
            out.captured_at = frame.captured_at;
            out.sequence = frame.sequence;
            Ok(())
        },
        Err(what) => Err(DecodeError::Jpeg(what)),
    }
}

impl Decoder {
    /// The settings of this decoder.
    pub closed spec fn settings(&self) -> DecoderOptions {
        self.options
    }

    #[verifier::type_invariant]
    spec fn keeps_settings(self) -> bool {
        self.settings() == standard()
    }

    /// A decoder to RGBA, in strict mode, with the dimension ceiling.
    pub fn new() -> (d: Decoder)
        ensures
            d.settings() == standard(),
    {
        Decoder {
            options: DecoderOptions {
                colorspace: ColorSpace::RGBA,
                strict: true,
                width_limit: MAX_WIDTH as usize,
                height_limit: MAX_HEIGHT as usize,
            },
            scratch: Vec::new(),
        }
    }

    /// The options in force.
    pub fn options(&self) -> (r: &DecoderOptions)
        ensures
            *r == self.settings(),
            *r == standard(),
    {
        proof {
            use_type_invariant(self);
        }
        &self.options
    }

    /// Decodes `frame` into `out`, and reuses the allocation of `out`.
    ///
    /// The time stamp and the sequence number are carried through. Whatever the error, `out`
    /// keeps what it had.
    pub fn decode(&mut self, frame: &CompressedFrame, out: &mut DecodedFrame) -> (r: Result<
        (),
        DecodeError,
    >)
        ensures
            final(self).settings() == old(self).settings(),
            r is Err ==> *final(out) == *old(out),
            r matches Err(e) ==> !(e is NoDimensions || e is UnexpectedBufferSize),
            match size_refusal(frame.width, frame.height) {
                Some(e) => r == Err::<(), DecodeError>(e),
                None => match headers_of(frame.jpeg@, standard()) {
                    Err(what) => r is Err && r->Err_0 is Jpeg && r->Err_0->Jpeg_0@ == what,
                    Ok((dimensions, buffer_size)) => match header_refusal(
                        frame.width,
                        frame.height,
                        dimensions,
                        buffer_size,
                    ) {
                        Some(e) => r == Err::<(), DecodeError>(e),
                        None => if !layout::returns_on(frame.jpeg@) {
                            r == Err::<(), DecodeError>(DecodeError::UnsupportedLayout)
                        } else {
                            match r {
                                Ok(()) => {
                                    &&& may_decode(
                                        frame.jpeg@,
                                        standard(),
                                        (frame.width * frame.height * 4) as nat,
                                        Ok(final(out).rgba@),
                                    )
                                    &&& final(out).well_formed()
                                    &&& final(out).width == frame.width
                                    &&& final(out).height == frame.height
                                    &&& final(out).captured_at == frame.captured_at
                                    &&& final(out).sequence == frame.sequence
                                },
                                Err(e) => e is Jpeg && may_decode(
                                    frame.jpeg@,
                                    standard(),
                                    (frame.width * frame.height * 4) as nat,
                                    Err(e->Jpeg_0@),
                                ),
                            }
                        },
                    },
                },
            },
    {
        match too_large(frame.width, frame.height) {
            Ok(()) => {},
            Err(e) => {
                return Err(e);
            },
        }
        proof {
            use_type_invariant(&*self);
        }
        let headers = zune_headers(frame.jpeg.as_slice(), &self.options);
        proof {
            if let Ok(JpegHeaders { dimensions: Some((w, h)), .. }) = headers {
                if super::in_range(w as u32, h as u32) {
                    a_size_in_range_fits_the_largest_output(w as u32, h as u32);
                }
            }
        }
        let expected: usize = match check_headers(frame.width, frame.height, headers) {
            Ok(expected) => expected,
            Err(e) => {
                return Err(e);
            },
        };
        if !layout::layout_returns(frame.jpeg.as_slice()) {
            return Err(DecodeError::UnsupportedLayout);
        }
        let mut scratch: Vec<u8> = Vec::new();
        std::mem::swap(&mut scratch, &mut self.scratch);
        if scratch.len() != expected {
            scratch.resize(expected, 0);
        }
        let outcome = zune_decode_into(frame.jpeg.as_slice(), &self.options, &mut scratch);
        let delivered = deliver_pixels(frame, &scratch, outcome, out);
        self.scratch = scratch;
        delivered
    }
}

impl Default for Decoder {
    fn default() -> (d: Decoder)
        ensures
            d.settings() == standard(),
    {
        Decoder::new()
    }
}

} // verus!
