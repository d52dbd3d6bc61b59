//! The layout of a JPEG, as far as the JPEG decoder's buffers depend on it.
//!
//! zune-jpeg sizes its buffers from the component table of the frame header, and it computes the
//! length of a component's rows from the components up to that one alone. Where a later component
//! has a larger horizontal factor, rows are longer than the buffers were made for, and on some
//! such layouts the decoder panics. A frame comes off a USB link, so what it says of itself is
//! read first, and a layout on which the decoder can panic is refused.

use vstd::prelude::*;

use super::jpeg;

verus! {

/// How the samples of a frame mean colours, as the headers give it.
#[derive(Debug, Clone, Copy, PartialEq, Eq, Structural)]
pub enum Colours {
    Luma,
    YCbCr,
    CMYK,
    YCCK,
}

impl Colours {
    /// How many components these colours take.
    pub open spec fn components(self) -> int {
        match self {
            Colours::Luma => 1,
            Colours::YCbCr => 3,
            Colours::CMYK => 4,
            Colours::YCCK => 4,
        }
    }
}

/// The horizontal sampling factor in a byte of the component table.
pub open spec fn across(factors: u8) -> int {
    factors as int / 16
}

/// The vertical sampling factor in a byte of the component table.
pub open spec fn down(factors: u8) -> int {
    factors as int % 16
}

/// The sampling factors that the JPEG decoder takes.
pub open spec fn usable(factors: u8) -> bool {
    (across(factors) == 1 || across(factors) == 2 || across(factors) == 4) && 1 <= down(factors)
        <= 4
}

/// The largest horizontal factor among the first `n` components.
pub open spec fn most_across(factors: Seq<u8>, n: int) -> int
    decreases n,
{
    if n <= 0 {
        1
    } else if across(factors[n - 1]) > most_across(factors, n - 1) {
        across(factors[n - 1])
    } else {
        most_across(factors, n - 1)
    }
}

/// The largest vertical factor among the first `n` components.
pub open spec fn most_down(factors: Seq<u8>, n: int) -> int
    decreases n,
{
    if n <= 0 {
        1
    } else if down(factors[n - 1]) > most_down(factors, n - 1) {
        down(factors[n - 1])
    } else {
        most_down(factors, n - 1)
    }
}

/// How many pieces of `size` it takes to cover `length`.
pub open spec fn pieces(length: int, size: int) -> int {
    (length + size - 1) / size
}

/// A frame header: how the frame is coded, its size, and the sampling factors of its components.
#[verifier::ext_equal]
pub ghost struct FrameView {
    pub progressive: bool,
    pub width: int,
    pub height: int,
    pub factors: Seq<u8>,
}

impl FrameView {
    /// How many units the frame is wide.
    pub open spec fn units_across(self) -> int {
        pieces(self.width, 8 * most_across(self.factors, self.factors.len() as int))
    }

    /// How many units the frame is high.
    pub open spec fn units_down(self) -> int {
        pieces(self.height, 8 * most_down(self.factors, self.factors.len() as int))
    }

    /// How long a row of component `k` is to the JPEG decoder, which looks at the factors of the
    /// components up to that one.
    pub open spec fn stride(self, k: int) -> int {
        8 * across(self.factors[k]) * pieces(self.width, 8 * most_across(self.factors, k + 1))
    }

    /// How long a row of component `k` is when all factors are looked at.
    pub open spec fn fitted_stride(self, k: int) -> int {
        8 * across(self.factors[k]) * self.units_across()
    }

    /// Whether a scan of its own can write component `k` past the end of its buffer. The buffer
    /// holds rows of the fitted length, and rows of the longer length are written: each unit of
    /// rows begins inside the buffer, and the last one to do so can end outside.
    pub open spec fn overruns(self, k: int) -> bool {
        let unit = 8 * down(self.factors[k]) * self.stride(k);
        let room = 8 * down(self.factors[k]) * self.fitted_stride(k) * self.units_down();
        let left = room - (room - 1) / unit * unit;
        let blocks = if pieces(self.width, 8) < self.stride(k) / 8 {
            pieces(self.width, 8)
        } else {
            self.stride(k) / 8
        };
        left < 7 * self.stride(k) + 8 * blocks
    }

    /// Whether component `k` is stored at half the height, and at the full or at half the width.
    pub open spec fn half_height(self, k: int) -> bool {
        let n = self.factors.len() as int;
        most_down(self.factors, n) / down(self.factors[k]) == 2 && most_across(self.factors, n)
            / across(self.factors[k]) <= 2
    }

    /// Whether component `k` is stored at half the height and half the width.
    pub open spec fn half_both(self, k: int) -> bool {
        self.half_height(k) && most_across(self.factors, self.factors.len() as int) / across(
            self.factors[k],
        ) == 2
    }

    /// Whether scaling up component `k` needs a longer scratch row than the one there is, whose
    /// length is that of the first component's rows. Scaling stops with an error at an earlier
    /// component of half height that has more than one row of blocks to a unit.
    pub open spec fn cramped(self, k: int) -> bool {
        &&& self.half_both(k)
        &&& down(self.factors[k]) == 1
        &&& 2 * self.stride(k) > self.stride(0)
        &&& forall|j: int|
            0 <= j < k ==> !(#[trigger] self.half_height(j) && down(self.factors[j]) != 1)
    }

    /// Whether the JPEG decoder takes this many components for these colours in strict mode.
    pub open spec fn enough_for(self, colours: Colours) -> bool {
        let n = self.factors.len();
        colours.components() <= n || colours == Colours::YCCK || (colours == Colours::CMYK && n
            == 3)
    }

    /// Whether the JPEG decoder comes to an end on this frame, whatever the coded data says, when
    /// the first scan names `named` components: with the picture or with an error.
    ///
    /// Too few components for the colours are an error. A progressive frame is taken for one of
    /// three components when its colours are YCCK, however few it has; a fourth component that the
    /// colours have no use for, and a row that is longer than it is fitted, are errors before
    /// anything is scaled up. A baseline frame whose first scan names every component is decoded
    /// unit by unit, with a buffer of one unit and a scratch row that is long enough.
    pub open spec fn decodable(self, colours: Colours, named: int) -> bool {
        let n = self.factors.len() as int;
        if !self.enough_for(colours) {
            true
        } else if self.progressive {
            &&& !(colours == Colours::YCCK && n < 3)
            &&& ({
                ||| n == 4 && colours == Colours::YCbCr
                ||| exists|k: int|
                    0 <= k < n && #[trigger] self.stride(k) != self.fitted_stride(k)
                ||| forall|k: int| 0 <= k < n ==> !#[trigger] self.cramped(k)
            })
        } else {
            ||| named == n
            ||| {
                &&& forall|k: int| 0 <= k < n ==> !#[trigger] self.overruns(k)
                &&& forall|k: int| 0 <= k < n ==> !#[trigger] self.cramped(k)
            }
        }
    }

    /// A frame header that the JPEG decoder takes.
    pub open spec fn valid(self) -> bool {
        &&& 0 < self.width <= 0xffff
        &&& 0 < self.height <= 0xffff
        &&& 1 <= self.factors.len() <= 4
        &&& forall|i: int| 0 <= i < self.factors.len() ==> usable(#[trigger] self.factors[i])
    }
}

/// What the headers say up to the first scan: the frame header, the colours, and how many
/// components the scan names.
#[verifier::ext_equal]
pub ghost struct LayoutView {
    pub frame: FrameView,
    pub colours: Colours,
    pub named: int,
}

/// The first position from `at` on that holds neither a fill byte nor a stuffed zero.
pub open spec fn after_stuffing(data: Seq<u8>, at: int) -> int
    decreases data.len() - at,
{
    if 0 <= at < data.len() && (data[at] == 0xFF || data[at] == 0) {
        after_stuffing(data, at + 1)
    } else {
        at
    }
}

/// How far the JPEG decoder moves on over the segment whose length field stands at `at`: by the
/// length it declares, but for the shortest one in which an application name is looked for.
pub open spec fn moves_by(data: Seq<u8>, at: int, marker: u8) -> Option<int> {
    match jpeg::word_at(data, at) {
        None => None,
        Some(length) => if length < 2 {
            None
        } else if marker == 0xE0 && length == 6 {
            Some(7)
        } else {
            Some(length)
        },
    }
}

/// The frame header whose length field stands at `at`, if the JPEG decoder takes it.
pub open spec fn frame_at(data: Seq<u8>, at: int, progressive: bool) -> Option<FrameView> {
    if at + 8 > data.len() || at + 8 + 3 * data[at + 7] > data.len() {
        None
    } else {
        let frame = FrameView {
            progressive,
            width: data[at + 5] * 256 + data[at + 6],
            height: data[at + 3] * 256 + data[at + 4],
            factors: Seq::new(data[at + 7] as nat, |i: int| data[at + 9 + 3 * i]),
        };
        if frame.valid() {
            Some(frame)
        } else {
            None
        }
    }
}

/// The colours once a frame header has named `n` components.
pub open spec fn colours_of_frame(colours: Colours, n: int) -> Colours {
    if n == 1 {
        Colours::Luma
    } else if n == 4 && colours == Colours::YCbCr {
        Colours::CMYK
    } else {
        colours
    }
}

/// The colours after the application segment whose length field stands at `at`: those that its
/// transform gives, if it is one of Adobe's.
pub open spec fn colours_of_adobe(data: Seq<u8>, at: int, colours: Colours) -> Colours {
    if at + 14 <= data.len() && data.subrange(at + 2, at + 7) == seq![
        0x41u8,
        0x64u8,
        0x6Fu8,
        0x62u8,
        0x65u8,
    ] {
        if data[at + 13] == 0 {
            Colours::CMYK
        } else if data[at + 13] == 1 {
            Colours::YCbCr
        } else if data[at + 13] == 2 {
            Colours::YCCK
        } else {
            colours
        }
    } else {
        colours
    }
}

/// What has been read on the way to the first scan.
#[verifier::ext_equal]
pub ghost struct SeenView {
    pub frame: Option<FrameView>,
    pub colours: Colours,
}

/// What has been read once the segment of `marker` has been, whose length field stands at `at`.
/// Nothing comes of a second frame header, nor of one that is not taken.
pub open spec fn seen_with(data: Seq<u8>, at: int, marker: u8, seen: SeenView) -> Option<SeenView> {
    if marker == 0xC0 || marker == 0xC1 || marker == 0xC2 {
        match (seen.frame, frame_at(data, at, marker == 0xC2)) {
            (None, Some(frame)) => Some(
                SeenView {
                    frame: Some(frame),
                    colours: colours_of_frame(seen.colours, frame.factors.len() as int),
                },
            ),
            _ => None,
        }
    } else if marker == 0xEE {
        Some(SeenView { frame: seen.frame, colours: colours_of_adobe(data, at, seen.colours) })
    } else {
        Some(seen)
    }
}

/// The scan whose length field stands at `at`, behind what has been read.
pub open spec fn scan_at(data: Seq<u8>, at: int, seen: SeenView) -> Option<LayoutView> {
    match seen.frame {
        Some(frame) if at + 2 < data.len() => Some(
            LayoutView { frame, colours: seen.colours, named: data[at + 2] as int },
        ),
        _ => None,
    }
}

/// The layout that the headers from `at` on give, behind the byte `last`.
pub open spec fn layout_from(data: Seq<u8>, at: int, last: u8, seen: SeenView) -> Option<LayoutView>
    decreases
            if at < data.len() {
                data.len() - at
            } else {
                0
            },
    via layout_from_advances
{
    if !(0 <= at < data.len()) {
        None
    } else {
        let p = marker_position(data, at, last);
        if p >= data.len() {
            None
        } else if byte_before(data, at, last, p) != 0xFF {
            layout_from(data, p + 1, data[p], seen)
        } else if data[p] == 0xDA {
            scan_at(data, p + 1, seen)
        } else if data[p] == 0xD9 || data[p] == 0xCC || data[p] == 0xDC {
            None
        } else {
            match (moves_by(data, p + 1, data[p]), seen_with(data, p + 1, data[p], seen)) {
                (Some(length), Some(now)) => layout_from(data, p + 1 + length, data[p], now),
                _ => None,
            }
        }
    }
}

/// Where the byte that may be a marker code stands: behind fill bytes, if there are any.
pub open spec fn marker_position(data: Seq<u8>, at: int, last: u8) -> int {
    if last == 0xFF {
        after_stuffing(data, at)
    } else {
        at
    }
}

/// The byte in front of position `p`, which was reached from `at`, behind the byte `last`.
pub open spec fn byte_before(data: Seq<u8>, at: int, last: u8, p: int) -> u8 {
    if p > at {
        data[p - 1]
    } else {
        last
    }
}

proof fn lemma_after_stuffing(data: Seq<u8>, at: int)
    requires
        0 <= at <= data.len(),
    ensures
        at <= after_stuffing(data, at) <= data.len(),
    decreases data.len() - at,
{
    if at < data.len() && (data[at] == 0xFF || data[at] == 0) {
        lemma_after_stuffing(data, at + 1);
    }
}

#[via_fn]
proof fn layout_from_advances(data: Seq<u8>, at: int, last: u8, seen: SeenView) {
    if 0 <= at < data.len() {
        lemma_after_stuffing(data, at);
    }
}

/// The layout of a JPEG, if its headers lead to a scan behind a frame header.
pub open spec fn layout_of(jpeg: Seq<u8>) -> Option<LayoutView> {
    if jpeg.len() >= 2 && jpeg[0] == 0xFF && jpeg[1] == 0xD8 {
        layout_from(jpeg, 2, 0, SeenView { frame: None, colours: Colours::YCbCr })
    } else {
        None
    }
}

/// Whether the JPEG decoder comes to an end on this JPEG: in strict mode, with RGBA for output.
/// Where the headers give no layout it ends with an error.
pub open spec fn returns_on(jpeg: Seq<u8>) -> bool {
    match layout_of(jpeg) {
        None => true,
        Some(layout) => layout.frame.decodable(layout.colours, layout.named),
    }
}

/// A frame header.
#[derive(Debug)]
struct Frame {
    progressive: bool,
    width: u16,
    height: u16,
    factors: Vec<u8>,
}

impl View for Frame {
    type V = FrameView;

    closed spec fn view(&self) -> FrameView {
        FrameView {
            progressive: self.progressive,
            width: self.width as int,
            height: self.height as int,
            factors: self.factors@,
        }
    }
}

/// What has been read on the way to the first scan.
struct Seen {
    frame: Option<Frame>,
    colours: Colours,
}

impl View for Seen {
    type V = SeenView;

    closed spec fn view(&self) -> SeenView {
        SeenView {
            frame: match self.frame {
                Some(frame) => Some(frame@),
                None => None,
            },
            colours: self.colours,
        }
    }
}

proof fn lemma_most_across(factors: Seq<u8>, n: int)
    requires
        0 <= n <= factors.len(),
        forall|i: int| 0 <= i < factors.len() ==> usable(#[trigger] factors[i]),
    ensures
        1 <= most_across(factors, n) <= 4,
        1 <= most_down(factors, n) <= 4,
    decreases n,
{
    if n > 0 {
        lemma_most_across(factors, n - 1);
    }
}

/// Covering takes at least one piece and no more pieces than there is length.
proof fn lemma_pieces(length: int, size: int)
    requires
        0 < length,
        0 < size,
    ensures
        1 <= pieces(length, size) <= length,
{
    assert(1 <= (length + size - 1) / size <= length) by (nonlinear_arith)
        requires
            0 < length,
            0 < size,
    ;
}

/// How many pieces of `size` it takes to cover `length`.
fn count_pieces(length: u64, size: u64) -> (n: u64)
    requires
        0 < length <= 0xffff,
        0 < size <= 32,
    ensures
        n == pieces(length as int, size as int),
        1 <= n <= 0xffff,
{
    proof {
        lemma_pieces(length as int, size as int);
    }
    (length + size - 1) / size
}

impl Frame {
    /// The largest horizontal factor among the first `n` components.
    fn largest_across(&self, n: usize) -> (m: u64)
        requires
            n <= self.factors@.len(),
            self@.valid(),
        ensures
            m == most_across(self@.factors, n as int),
            1 <= m <= 4,
    {
        let mut m: u64 = 1;
        let mut i: usize = 0;
        while i < n
            invariant
                i <= n <= self.factors@.len(),
                self@.valid(),
                m == most_across(self@.factors, i as int),
            decreases n - i,
        {
            let h: u64 = (self.factors[i] / 16) as u64;
            assert(usable(self@.factors[i as int]));
            if h > m {
                m = h;
            }
            i = i + 1;
        }
        proof {
            lemma_most_across(self@.factors, n as int);
        }
        m
    }

    /// The largest vertical factor of all components.
    fn largest_down(&self) -> (m: u64)
        requires
            self@.valid(),
        ensures
            m == most_down(self@.factors, self@.factors.len() as int),
            1 <= m <= 4,
    {
        let mut m: u64 = 1;
        let mut i: usize = 0;
        while i < self.factors.len()
            invariant
                i <= self.factors@.len(),
                self@.valid(),
                m == most_down(self@.factors, i as int),
            decreases self.factors@.len() - i,
        {
            let v: u64 = (self.factors[i] % 16) as u64;
            assert(usable(self@.factors[i as int]));
            if v > m {
                m = v;
            }
            i = i + 1;
        }
        proof {
            lemma_most_across(self@.factors, self@.factors.len() as int);
        }
        m
    }

    /// The length of the rows of component `k` to the JPEG decoder.
    fn row_length(&self, k: usize) -> (r: u64)
        requires
            k < self.factors@.len(),
            self@.valid(),
        ensures
            r == self@.stride(k as int),
            8 <= r <= 32 * 0xffff,
    {
        assert(usable(self@.factors[k as int]));
        let h: u64 = (self.factors[k] / 16) as u64;
        let n: u64 = count_pieces(self.width as u64, 8 * self.largest_across(k + 1));
        assert(8 <= 8 * h * n <= 32 * 0xffff) by (nonlinear_arith)
            requires
                1 <= h <= 4,
                1 <= n <= 0xffff,
        ;
        8 * h * n
    }

    /// The length of the rows of component `k` when all factors are looked at.
    fn fitted_row_length(&self, k: usize) -> (r: u64)
        requires
            k < self.factors@.len(),
            self@.valid(),
        ensures
            r == self@.fitted_stride(k as int),
            8 <= r <= 32 * 0xffff,
    {
        assert(usable(self@.factors[k as int]));
        let h: u64 = (self.factors[k] / 16) as u64;
        let n: u64 = count_pieces(self.width as u64, 8 * self.largest_across(self.factors.len()));
        assert(8 <= 8 * h * n <= 32 * 0xffff) by (nonlinear_arith)
            requires
                1 <= h <= 4,
                1 <= n <= 0xffff,
        ;
        8 * h * n
    }

    /// Whether a scan of its own can write component `k` past the end of its buffer.
    fn can_overrun(&self, k: usize) -> (r: bool)
        requires
            k < self.factors@.len(),
            self@.valid(),
        ensures
            r == self@.overruns(k as int),
    {
        assert(usable(self@.factors[k as int]));
        let v: u64 = (self.factors[k] % 16) as u64;
        let stride: u64 = self.row_length(k);
        let fitted: u64 = self.fitted_row_length(k);
        let rows: u64 = count_pieces(self.height as u64, 8 * self.largest_down());
        assert(64 <= 8 * v * stride <= 32 * (32 * 0xffff)) by (nonlinear_arith)
            requires
                1 <= v <= 4,
                8 <= stride <= 32 * 0xffff,
        ;
        assert(64 <= 8 * v * fitted <= 32 * (32 * 0xffff)) by (nonlinear_arith)
            requires
                1 <= v <= 4,
                8 <= fitted <= 32 * 0xffff,
        ;
        let unit: u64 = 8 * v * stride;
        let step: u64 = 8 * v * fitted;
        assert(64 <= step * rows <= 32 * (32 * 0xffff) * 0xffff) by (nonlinear_arith)
            requires
                64 <= step <= 32 * (32 * 0xffff),
                1 <= rows <= 0xffff,
        ;
        let room: u64 = step * rows;
        let begun: u64 = (room - 1) / unit;
        assert(0 <= begun * unit <= room - 1) by (nonlinear_arith)
            requires
                begun == (room - 1) / unit as int,
                unit > 0,
                room >= 1,
        ;
        let left: u64 = room - begun * unit;
        let wide: u64 = count_pieces(self.width as u64, 8);
        let blocks: u64 = if wide < stride / 8 {
            wide
        } else {
            stride / 8
        };
        left < 7 * stride + 8 * blocks
    }

    /// Whether component `k` is stored at half the height, and at the full or at half the width.
    fn is_half_height(&self, k: usize) -> (r: bool)
        requires
            k < self.factors@.len(),
            self@.valid(),
        ensures
            r == self@.half_height(k as int),
    {
        assert(usable(self@.factors[k as int]));
        let h: u64 = (self.factors[k] / 16) as u64;
        let v: u64 = (self.factors[k] % 16) as u64;
        self.largest_down() / v == 2 && self.largest_across(self.factors.len()) / h <= 2
    }

    /// Whether scaling up component `k` needs a longer scratch row than the one there is.
    fn is_cramped(&self, k: usize) -> (r: bool)
        requires
            k < self.factors@.len(),
            self@.valid(),
        ensures
            r == self@.cramped(k as int),
    {
        assert(usable(self@.factors[k as int]));
        let h: u64 = (self.factors[k] / 16) as u64;
        if !self.is_half_height(k) || self.largest_across(self.factors.len()) / h != 2
            || self.factors[k] % 16 != 1 || 2 * self.row_length(k) <= self.row_length(0) {
            return false;
        }
        let mut j: usize = 0;
        while j < k
            invariant
                j <= k < self.factors@.len(),
                self@.valid(),
                self@.half_both(k as int),
                forall|i: int|
                    0 <= i < j ==> !(#[trigger] self@.half_height(i) && down(self@.factors[i])
                        != 1),
            decreases k - j,
        {
            if self.is_half_height(j) && self.factors[j] % 16 != 1 {
                assert(self@.half_height(j as int));
                return false;
            }
            j = j + 1;
        }
        true
    }

    /// Whether some component is cramped.
    fn any_cramped(&self) -> (r: bool)
        requires
            self@.valid(),
        ensures
            r == !(forall|k: int|
                0 <= k < self@.factors.len() ==> !#[trigger] self@.cramped(k)),
    {
        let mut k: usize = 0;
        while k < self.factors.len()
            invariant
                k <= self.factors@.len(),
                self@.valid(),
                forall|i: int| 0 <= i < k ==> !#[trigger] self@.cramped(i),
            decreases self.factors@.len() - k,
        {
            if self.is_cramped(k) {
                assert(self@.cramped(k as int));
                return true;
            }
            k = k + 1;
        }
        false
    }

    /// Whether some component can overrun its buffer.
    fn any_overruns(&self) -> (r: bool)
        requires
            self@.valid(),
        ensures
            r == !(forall|k: int|
                0 <= k < self@.factors.len() ==> !#[trigger] self@.overruns(k)),
    {
        let mut k: usize = 0;
        while k < self.factors.len()
            invariant
                k <= self.factors@.len(),
                self@.valid(),
                forall|i: int| 0 <= i < k ==> !#[trigger] self@.overruns(i),
            decreases self.factors@.len() - k,
        {
            if self.can_overrun(k) {
                assert(self@.overruns(k as int));
                return true;
            }
            k = k + 1;
        }
        false
    }

    /// Whether some component's rows are longer than they need to be.
    fn any_loose(&self) -> (r: bool)
        requires
            self@.valid(),
        ensures
            r == (exists|k: int|
                0 <= k < self@.factors.len() && #[trigger] self@.stride(k)
                    != self@.fitted_stride(k)),
    {
        let mut k: usize = 0;
        while k < self.factors.len()
            invariant
                k <= self.factors@.len(),
                self@.valid(),
                forall|i: int| 0 <= i < k ==> #[trigger] self@.stride(i) == self@.fitted_stride(i),
            decreases self.factors@.len() - k,
        {
            if self.row_length(k) != self.fitted_row_length(k) {
                assert(self@.stride(k as int) != self@.fitted_stride(k as int));
                return true;
            }
            k = k + 1;
        }
        false
    }

    /// Whether the JPEG decoder comes to an end on this frame.
    fn is_decodable(&self, colours: Colours, named: u8) -> (r: bool)
        requires
            self@.valid(),
        ensures
            r == self@.decodable(colours, named as int),
    {
        let n: usize = self.factors.len();
        let wanted: usize = match colours {
            Colours::Luma => 1,
            Colours::YCbCr => 3,
            Colours::CMYK => 4,
            Colours::YCCK => 4,
        };
        if wanted > n && colours != Colours::YCCK && !(colours == Colours::CMYK && n == 3) {
            true
        } else if self.progressive {
            !(colours == Colours::YCCK && n < 3) && ((n == 4 && colours == Colours::YCbCr)
                || self.any_loose() || !self.any_cramped())
        } else {
            named as usize == n || (!self.any_overruns() && !self.any_cramped())
        }
    }
}

/// Reads the frame header whose length field stands at `at`.
fn read_frame(data: &[u8], at: usize, progressive: bool) -> (r: Option<Frame>)
    requires
        at <= data@.len(),
    ensures
        match (r, frame_at(data@, at as int, progressive)) {
            (Some(frame), Some(want)) => frame@ == want && want.valid(),
            (None, None) => true,
            _ => false,
        },
{
    if data.len() - at < 8 {
        return None;
    }
    let n: usize = data[at + 7] as usize;
    if data.len() - at - 8 < 3 * n {
        return None;
    }
    let height: u16 = data[at + 3] as u16 * 256 + data[at + 4] as u16;
    let width: u16 = data[at + 5] as u16 * 256 + data[at + 6] as u16;
    let ghost want = FrameView {
        progressive,
        width: data[at + 5] * 256 + data[at + 6],
        height: data[at + 3] * 256 + data[at + 4],
        factors: Seq::new(data[at + 7] as nat, |i: int| data@[at + 9 + 3 * i]),
    };
    if width == 0 || height == 0 || n == 0 || n > 4 {
        assert(!want.valid());
        return None;
    }
    let mut factors: Vec<u8> = Vec::new();
    let mut i: usize = 0;
    while i < n
        invariant
            i <= n <= 4,
            at + 8 + 3 * n <= data@.len() <= usize::MAX,
            n == data@[at + 7],
            want.factors == Seq::new(data@[at + 7] as nat, |i: int| data@[at + 9 + 3 * i]),
            factors@ == want.factors.take(i as int),
            forall|j: int| 0 <= j < i ==> usable(#[trigger] factors@[j]),
            frame_at(data@, at as int, progressive) == (if want.valid() {
                Some(want)
            } else {
                None
            }),
        decreases n - i,
    {
        let b: u8 = data[at + 9 + 3 * i];
        let h: u8 = b / 16;
        let v: u8 = b % 16;
        assert(want.factors[i as int] == b);
        if !(h == 1 || h == 2 || h == 4) || v < 1 || v > 4 {
            assert(!usable(want.factors[i as int]));
            return None;
        }
        factors.push(b);
        assert(factors@ =~= want.factors.take(i + 1));
        i = i + 1;
    }
    assert(factors@ =~= want.factors);
    Some(Frame { progressive, width, height, factors })
}

/// The colours after the application segment whose length field stands at `at`.
fn read_adobe(data: &[u8], at: usize, colours: Colours) -> (r: Colours)
    requires
        at <= data@.len(),
    ensures
        r == colours_of_adobe(data@, at as int, colours),
{
    if data.len() - at < 14 {
        return colours;
    }
    let ghost name = data@.subrange(at + 2, at + 7);
    let ghost adobe = seq![0x41u8, 0x64u8, 0x6Fu8, 0x62u8, 0x65u8];
    if data[at + 2] == 0x41 && data[at + 3] == 0x64 && data[at + 4] == 0x6F && data[at + 5] == 0x62
        && data[at + 6] == 0x65 {
        assert(name =~= adobe);
        match data[at + 13] {
            0 => Colours::CMYK,
            1 => Colours::YCbCr,
            2 => Colours::YCCK,
            _ => colours,
        }
    } else {
        assert(name[0] == data@[at + 2] && name[1] == data@[at + 3] && name[2] == data@[at + 4]
            && name[3] == data@[at + 5] && name[4] == data@[at + 6]);
        colours
    }
}

/// Reads the segment of `marker`, whose length field stands at `at`, into `seen`.
fn read_segment(data: &[u8], at: usize, marker: u8, seen: Seen) -> (r: Option<Seen>)
    requires
        at <= data@.len(),
        seen@.frame matches Some(frame) ==> frame.valid(),
    ensures
        match (r, seen_with(data@, at as int, marker, seen@)) {
            (Some(now), Some(want)) => now@ == want && (want.frame matches Some(frame)
                ==> frame.valid()),
            (None, None) => true,
            _ => false,
        },
{
    if marker == 0xC0 || marker == 0xC1 || marker == 0xC2 {
        if seen.frame.is_some() {
            return None;
        }
        match read_frame(data, at, marker == 0xC2) {
            None => None,
            Some(frame) => {
                let n: usize = frame.factors.len();
                let colours = if n == 1 {
                    Colours::Luma
                } else if n == 4 && seen.colours == Colours::YCbCr {
                    Colours::CMYK
                } else {
                    seen.colours
                };
                Some(Seen { frame: Some(frame), colours })
            },
        }
    } else if marker == 0xEE {
        let colours = read_adobe(data, at, seen.colours);
        Some(Seen { frame: seen.frame, colours })
    } else {
        Some(seen)
    }
}

/// Whether the JPEG decoder comes to an end on this JPEG: in strict mode, with RGBA for output.
///
/// On every other layout there is data on which it panics.
pub fn layout_returns(jpeg: &[u8]) -> (r: bool)
    ensures
        r == returns_on(jpeg@),
{
    if jpeg.len() < 2 || jpeg[0] != 0xFF || jpeg[1] != 0xD8 {
        return true;
    }
    let mut at: usize = 2;
    let mut last: u8 = 0;
    let mut seen = Seen { frame: None, colours: Colours::YCbCr };
    while at < jpeg.len()
        invariant
            seen@.frame matches Some(frame) ==> frame.valid(),
            layout_of(jpeg@) == layout_from(jpeg@, at as int, last, seen@),
        decreases jpeg@.len() - at,
    {
        let start: usize = at;
        let mut p: usize = at;
        proof {
            lemma_after_stuffing(jpeg@, start as int);
        }
        if last == 0xFF {
            while p < jpeg.len() && (jpeg[p] == 0xFF || jpeg[p] == 0)
                invariant
                    start <= p <= jpeg@.len(),
                    after_stuffing(jpeg@, start as int) == after_stuffing(jpeg@, p as int),
                decreases jpeg@.len() - p,
            {
                p = p + 1;
            }
        }
        assert(p == marker_position(jpeg@, start as int, last));
        if p >= jpeg.len() {
            return true;
        }
        let before: u8 = if p > start {
            jpeg[p - 1]
        } else {
            last
        };
        let marker: u8 = jpeg[p];
        if before != 0xFF {
            last = marker;
            at = p + 1;
            continue ;
        }
        if marker == 0xDA {
            return match seen.frame {
                Some(frame) if jpeg.len() - p > 3 => {
                    frame.is_decodable(seen.colours, jpeg[p + 3])
                },
                _ => true,
            };
        }
        if marker == 0xD9 || marker == 0xCC || marker == 0xDC {
            return true;
        }
        let length: usize = match jpeg::read_u16(jpeg, p + 1) {
            Some(length) if length >= 2 => {
                if marker == 0xE0 && length == 6 {
                    7
                } else {
                    length as usize
                }
            },
            _ => {
                return true;
            },
        };
        match read_segment(jpeg, p + 1, marker, seen) {
            Some(now) => {
                seen = now;
            },
            None => {
                return true;
            },
        }
        last = marker;
        if jpeg.len() - (p + 1) < length {
            assert(layout_from(jpeg@, p + 1 + length, marker, seen@) is None);
            return true;
        }
        at = p + 1 + length;
    }
    true
}

proof fn lemma_most_across_is_reached(factors: Seq<u8>, n: int)
    requires
        1 <= n <= factors.len(),
        forall|i: int| 0 <= i < factors.len() ==> usable(#[trigger] factors[i]),
        forall|i: int| 0 <= i < n ==> across(#[trigger] factors[i]) <= across(factors[0]),
    ensures
        most_across(factors, n) == across(factors[0]),
    decreases n,
{
    assert(usable(factors[0]));
    if n > 1 {
        lemma_most_across_is_reached(factors, n - 1);
    } else {
        assert(most_across(factors, 0) == 1);
    }
}

/// Where the first component has the largest horizontal factor, all rows have the fitted length,
/// and no component overruns its buffer.
pub proof fn rows_fit_where_the_first_component_is_the_widest(frame: FrameView, k: int)
    requires
        frame.valid(),
        0 <= k < frame.factors.len(),
        forall|i: int|
            0 <= i < frame.factors.len() ==> across(#[trigger] frame.factors[i]) <= across(
                frame.factors[0],
            ),
    ensures
        frame.stride(k) == frame.fitted_stride(k),
        !frame.overruns(k),
{
    let n = frame.factors.len() as int;
    lemma_most_across_is_reached(frame.factors, n);
    lemma_most_across_is_reached(frame.factors, k + 1);
    lemma_most_across(frame.factors, n);
    assert(usable(frame.factors[k]));
    lemma_pieces(frame.width, 8 * most_across(frame.factors, n));
    lemma_pieces(frame.height, 8 * most_down(frame.factors, n));
    let stride = frame.stride(k);
    let unit = 8 * down(frame.factors[k]) * stride;
    let rows = frame.units_down();
    let h = across(frame.factors[k]);
    let pieces_across = frame.units_across();
    assert(stride >= 8) by (nonlinear_arith)
        requires
            stride == 8 * h * pieces_across,
            h >= 1,
            pieces_across >= 1,
    ;
    let v = down(frame.factors[k]);
    assert(unit >= 8 * stride) by (nonlinear_arith)
        requires
            unit == 8 * v * stride,
            v >= 1,
            stride >= 8,
    ;
    let room = unit * rows;
    assert((room - 1) / unit * unit == room - unit) by (nonlinear_arith)
        requires
            room == unit * rows,
            unit >= 1,
            rows >= 1,
    {
        assert(room - 1 == unit * (rows - 1) + (unit - 1));
        vstd::arithmetic::div_mod::lemma_fundamental_div_mod_converse(
            room - 1,
            unit,
            rows - 1,
            unit - 1,
        );
    }
}

/// The layouts of cameras are never refused: brightness at full size or twice the colour in either
/// direction, coded in whichever way and in however many scans.
pub proof fn ordinary_frames_are_decodable(frame: FrameView, colours: Colours, named: int)
    requires
        frame.valid(),
        frame.factors.len() == 3,
        across(frame.factors[0]) <= 2 && down(frame.factors[0]) <= 2,
        across(frame.factors[1]) == 1 && down(frame.factors[1]) == 1,
        across(frame.factors[2]) == 1 && down(frame.factors[2]) == 1,
    ensures
        frame.decodable(colours, named),
{
    assert(usable(frame.factors[0]));
    assert forall|k: int| 0 <= k < 3 implies !#[trigger] frame.overruns(k) && !frame.cramped(
        k,
    ) by {
        rows_fit_where_the_first_component_is_the_widest(frame, k);
        lemma_most_across_is_reached(frame.factors, 3);
        lemma_most_across_is_reached(frame.factors, 1);
        lemma_most_across_is_reached(frame.factors, k + 1);
        let n = pieces(frame.width, 8 * across(frame.factors[0]));
        assert(frame.stride(0) == 8 * across(frame.factors[0]) * n);
        assert(frame.stride(k) == 8 * across(frame.factors[k]) * n);
        if frame.half_both(k) {
            let h = across(frame.factors[0]);
            let g = across(frame.factors[k]);
            assert(g == 1 && h == 2);
            assert(2 * (8 * g * n) == 8 * h * n) by (nonlinear_arith)
                requires
                    g == 1,
                    h == 2,
            ;
        }
    }
    assert forall|k: int| 0 <= k < 3 implies !#[trigger] frame.cramped(k) by {
        assert(!frame.overruns(k));
    }
}

// ---- what a layout is, and which ones are refused --------------------------------------------

/// A frame whose first component is the widest is decoded, whatever its first scan names: all but a
/// progressive one that has fewer than three components and claims to have four.
pub proof fn an_ordinary_frame_is_decoded(frame: FrameView, colours: Colours, named: int)
    requires
        frame.valid(),
        forall|i: int|
            0 <= i < frame.factors.len() ==> #[trigger] frame.factors[i] as int / 16
                <= frame.factors[0] as int / 16,
        !(frame.progressive && colours == Colours::YCCK && frame.factors.len() < 3),
    ensures
        frame.decodable(colours, named),
{
    assert forall|k: int| 0 <= k < frame.factors.len() implies !#[trigger] frame.overruns(k) by {
        rows_fit_where_the_first_component_is_the_widest(frame, k);
    }
    let factors = frame.factors;
    let n = factors.len() as int;
    assert forall|k: int| 0 <= k < n implies !#[trigger] frame.cramped(k) by {
        lemma_most_across_is_reached(factors, n);
        lemma_most_across_is_reached(factors, 1);
        lemma_most_across_is_reached(factors, k + 1);
        assert(usable(factors[k]) && usable(factors[0]));
        let (first, this) = (across(factors[0]), across(factors[k]));
        let units = pieces(frame.width, 8 * first);
        lemma_pieces(frame.width, 8 * first);
        if frame.half_both(k) {
            assert(first / this == 2);
            assert(2 * (8 * this * units) <= 8 * first * units) by (nonlinear_arith)
                requires
                    first / this == 2,
                    this >= 1,
                    units >= 1,
            ;
        }
    }
}

/// A component that is decoded by a scan of its own is refused where its rows are longer than they
/// were fitted, because a later component is wider.
pub proof fn a_row_that_does_not_fit_is_refused(
    frame: FrameView,
    colours: Colours,
    named: int,
    k: int,
    wider: int,
)
    requires
        frame.valid(),
        !frame.progressive,
        named != frame.factors.len(),
        colours == Colours::Luma || colours == Colours::YCbCr && frame.factors.len() >= 3,
        frame.width > 8,
        frame.height <= 8,
        0 <= k < wider < frame.factors.len(),
        forall|i: int| 0 <= i <= k ==> #[trigger] frame.factors[i] as int / 16 == 1,
        frame.factors[k] == 0x11,
        frame.factors[wider] as int / 16 >= 2,
    ensures
        !frame.decodable(colours, named),
{
    let factors = frame.factors;
    let n = factors.len() as int;
    lemma_most_across(factors, n);
    lemma_narrow(factors, k + 1);
    lemma_most_is_most(factors, n, wider);
    let most = most_across(factors, n);
    assert(most >= 2);
    let width = frame.width;
    assert(pieces(width, 16) < pieces(width, 8));
    assert(pieces(width, 24) < pieces(width, 8));
    assert(pieces(width, 32) < pieces(width, 8));
    assert(8 * most == 16 || 8 * most == 24 || 8 * most == 32);
    let height = frame.height;
    let tall = 8 * most_down(factors, n);
    assert(pieces(height, 8) == 1 && pieces(height, 16) == 1 && pieces(height, 24) == 1 && pieces(
        height,
        32,
    ) == 1);
    assert(tall == 8 || tall == 16 || tall == 24 || tall == 32);
    assert(frame.units_down() == 1);
    let row = frame.stride(k);
    assert(row == 8 * pieces(frame.width, 8));
    let room = 8 * down(factors[k]) * frame.fitted_stride(k) * frame.units_down();
    let unit = 8 * down(factors[k]) * row;
    assert(room == 8 * frame.fitted_stride(k));
    lemma_pieces(frame.width, 8 * most);
    assert((room - 1) / unit == 0) by (nonlinear_arith)
        requires
            1 <= room <= unit,
    ;
    assert(frame.overruns(k));
}

proof fn lemma_narrow(factors: Seq<u8>, n: int)
    requires
        0 <= n <= factors.len(),
        forall|i: int| 0 <= i < n ==> #[trigger] factors[i] as int / 16 == 1,
    ensures
        most_across(factors, n) == 1,
    decreases n,
{
    if n > 0 {
        lemma_narrow(factors, n - 1);
        assert(factors[n - 1] as int / 16 == 1);
    }
}

proof fn lemma_most_is_most(factors: Seq<u8>, n: int, i: int)
    requires
        0 <= i < n <= factors.len(),
    ensures
        across(factors[i]) <= most_across(factors, n),
        down(factors[i]) <= most_down(factors, n),
    decreases n,
{
    if i < n - 1 {
        lemma_most_is_most(factors, n - 1, i);
    }
}

proof fn lemma_most_is_bounded(factors: Seq<u8>, n: int, bound: int)
    requires
        0 <= n <= factors.len(),
        bound >= 1,
        forall|i: int|
            0 <= i < factors.len() ==> across(#[trigger] factors[i]) <= bound && down(factors[i])
                <= bound,
    ensures
        most_across(factors, n) <= bound,
        most_down(factors, n) <= bound,
    decreases n,
{
    if n > 0 {
        lemma_most_is_bounded(factors, n - 1, bound);
        assert(across(factors[n - 1]) <= bound);
    }
}

/// A frame is refused where its first component is to be scaled up in both directions, and the
/// scratch row is only as long as that component's own.
pub proof fn a_first_component_that_is_scaled_up_is_refused(
    frame: FrameView,
    colours: Colours,
    named: int,
    larger: int,
)
    requires
        frame.valid(),
        frame.progressive || named != frame.factors.len(),
        colours == Colours::Luma || colours == Colours::YCbCr && frame.factors.len() == 3,
        frame.width <= 8,
        0 < larger < frame.factors.len(),
        frame.factors[0] == 0x11,
        frame.factors[larger] == 0x22,
        forall|i: int|
            0 <= i < frame.factors.len() ==> #[trigger] frame.factors[i] as int / 16 <= 2
                && frame.factors[i] as int % 16 <= 2,
    ensures
        !frame.decodable(colours, named),
{
    let factors = frame.factors;
    let n = factors.len() as int;
    lemma_most_across(factors, n);
    assert forall|i: int| 0 <= i < n implies across(#[trigger] factors[i]) <= 2 && down(factors[i])
        <= 2 by {
        assert(factors[i] as int / 16 <= 2 && factors[i] as int % 16 <= 2);
    }
    lemma_most_is_bounded(factors, n, 2);
    lemma_most_is_most(factors, n, larger);
    assert(most_across(factors, n) == 2 && most_down(factors, n) == 2);
    assert forall|k: int| 0 <= k < n implies #[trigger] frame.stride(k) == frame.fitted_stride(
        k,
    ) by {
        lemma_most_across(factors, k + 1);
        lemma_most_is_bounded(factors, k + 1, 2);
        let m = most_across(factors, k + 1);
        assert(m == 1 || m == 2);
        assert(pieces(frame.width, 8) == 1 && pieces(frame.width, 16) == 1);
    }
    assert(most_across(factors, 1) == 1) by {
        assert(most_across(factors, 0) == 1);
    }
    assert(frame.half_height(0));
    assert(frame.cramped(0));
}

/// The layout of a JPEG is that of its frame header, wherever the bytes of the header stand, and the
/// number of components that the scan behind it names. Without a word from anybody, one component
/// is the brightness, three are the colours of a picture and four are inks.
pub proof fn a_layout_is_what_the_headers_say(data: Seq<u8>, n: int)
    requires
        1 <= n <= 4,
        data.len() > 16 + 3 * n,
        data[0] == 0xFF && data[1] == 0xD8,
        data[2] == 0xFF && (data[3] == 0xC0 || data[3] == 0xC1 || data[3] == 0xC2),
        data[4] * 256 + data[5] == 8 + 3 * n,
        data[7] * 256 + data[8] > 0,
        data[9] * 256 + data[10] > 0,
        data[11] == n,
        forall|i: int| 0 <= i < n ==> usable(#[trigger] data[13 + 3 * i]),
        data[12 + 3 * n] == 0xFF && data[13 + 3 * n] == 0xDA,
    ensures
        layout_of(data) is Some,
        layout_of(data)->0.frame.progressive <==> data[3] == 0xC2,
        layout_of(data)->0.frame.height == data[7] * 256 + data[8],
        layout_of(data)->0.frame.width == data[9] * 256 + data[10],
        layout_of(data)->0.frame.factors.len() == n,
        forall|i: int|
            0 <= i < n ==> #[trigger] layout_of(data)->0.frame.factors[i] == data[13 + 3 * i],
        n == 1 ==> layout_of(data)->0.colours == Colours::Luma,
        n == 3 ==> layout_of(data)->0.colours == Colours::YCbCr,
        n == 4 ==> layout_of(data)->0.colours == Colours::CMYK,
        layout_of(data)->0.named == data[16 + 3 * n],
{
    reveal_with_fuel(layout_from, 2);
    let seen = SeenView { frame: None, colours: Colours::YCbCr };
    assert(layout_of(data) == layout_from(data, 3, 0xFF, seen));
    assert(after_stuffing(data, 3) == 3);
    let frame = FrameView {
        progressive: data[3] == 0xC2,
        width: data[9] * 256 + data[10],
        height: data[7] * 256 + data[8],
        factors: Seq::new(n as nat, |i: int| data[13 + 3 * i]),
    };
    assert forall|i: int| 0 <= i < frame.factors.len() implies usable(
        #[trigger] frame.factors[i],
    ) by {
        assert(frame.factors[i] == data[13 + 3 * i]);
    }
    assert(frame.valid());
    assert(Seq::new(data[11] as nat, |i: int| data[4 + 9 + 3 * i]) =~= frame.factors);
    assert(frame_at(data, 4, data[3] == 0xC2) == Some(frame));
    let now = SeenView { frame: Some(frame), colours: colours_of_frame(seen.colours, n) };
    assert(seen_with(data, 4, data[3], seen) == Some(now));
    assert(moves_by(data, 4, data[3]) == Some(8 + 3 * n));
    let end = 12 + 3 * n;
    assert(layout_from(data, 3, 0xFF, seen) == layout_from(data, end, data[3], now));
    assert(layout_from(data, end, data[3], now) == layout_from(data, end + 1, 0xFF, now));
    assert(after_stuffing(data, end + 1) == end + 1);
    assert(layout_from(data, end + 1, 0xFF, now) == scan_at(data, end + 2, now));
}

/// A segment that is neither a frame header nor one of Adobe's is passed over by its length.
pub proof fn a_segment_of_another_kind_is_passed_over(
    data: Seq<u8>,
    at: int,
    last: u8,
    seen: SeenView,
)
    requires
        0 <= at,
        at + 3 < data.len(),
        last != 0xFF,
        data[at] == 0xFF,
        data[at + 1] != 0xFF && data[at + 1] != 0,
        data[at + 1] != 0xDA && data[at + 1] != 0xD9 && data[at + 1] != 0xCC && data[at + 1] != 0xDC,
        data[at + 1] != 0xC0 && data[at + 1] != 0xC1 && data[at + 1] != 0xC2 && data[at + 1] != 0xEE,
        data[at + 2] * 256 + data[at + 3] >= 2,
        !(data[at + 1] == 0xE0 && data[at + 2] * 256 + data[at + 3] == 6),
    ensures
        layout_from(data, at, last, seen) == layout_from(
            data,
            at + 2 + data[at + 2] * 256 + data[at + 3],
            data[at + 1],
            seen,
        ),
{
    reveal_with_fuel(layout_from, 2);
    assert(layout_from(data, at, last, seen) == layout_from(data, at + 1, 0xFF, seen));
    assert(after_stuffing(data, at + 1) == at + 1);
    assert(moves_by(data, at + 2, data[at + 1]) == Some(data[at + 2] * 256 + data[at + 3]));
}

/// A segment of Adobe's says what the samples mean, and nothing else.
pub proof fn the_transform_says_what_the_samples_mean(
    data: Seq<u8>,
    at: int,
    last: u8,
    frame: Option<FrameView>,
    colours: Colours,
)
    requires
        0 <= at,
        at + 16 <= data.len(),
        last != 0xFF,
        data[at] == 0xFF && data[at + 1] == 0xEE,
        data[at + 2] == 0 && data[at + 3] == 14,
        data[at + 4] == 0x41 && data[at + 5] == 0x64 && data[at + 6] == 0x6F && data[at + 7] == 0x62
            && data[at + 8] == 0x65,
    ensures
        layout_from(data, at, last, SeenView { frame, colours }) == layout_from(
            data,
            at + 16,
            0xEE,
            SeenView {
                frame,
                colours: if data[at + 15] == 0 {
                    Colours::CMYK
                } else if data[at + 15] == 1 {
                    Colours::YCbCr
                } else if data[at + 15] == 2 {
                    Colours::YCCK
                } else {
                    colours
                },
            },
        ),
{
    reveal_with_fuel(layout_from, 2);
    let seen = SeenView { frame, colours };
    assert(layout_from(data, at, last, seen) == layout_from(data, at + 1, 0xFF, seen));
    assert(after_stuffing(data, at + 1) == at + 1);
    assert(data.subrange(at + 4, at + 9) =~= seq![0x41u8, 0x64u8, 0x6Fu8, 0x62u8, 0x65u8]);
    assert(moves_by(data, at + 2, 0xEE) == Some(14int));
}

/// A JPEG that does not begin like one has no layout, nor has one that ends before a scan; on such
/// a JPEG the decoder returns.
pub proof fn without_a_scan_there_is_no_layout(data: Seq<u8>, at: int, last: u8, seen: SeenView)
    ensures
        data.len() < 2 || data[0] != 0xFF || data[1] != 0xD8 ==> layout_of(data) is None
            && returns_on(data),
        0 <= at && at + 1 < data.len() && last != 0xFF && data[at] == 0xFF && data[at + 1] == 0xD9
            ==> layout_from(data, at, last, seen) is None,
        at >= data.len() ==> layout_from(data, at, last, seen) is None,
{
    reveal_with_fuel(layout_from, 2);
    if 0 <= at && at + 1 < data.len() && last != 0xFF && data[at] == 0xFF && data[at + 1] == 0xD9 {
        assert(layout_from(data, at, last, seen) == layout_from(data, at + 1, 0xFF, seen));
        assert(after_stuffing(data, at + 1) == at + 1);
    }
}


} // verus!
