//! The decisions of the V4L2 capture device: what a driver's answers to the negotiation mean,
//! which call comes next, and what a dequeued buffer is worth. The calls themselves are the
//! caller's.

use vstd::prelude::*;

use super::decoder;
use super::jpeg;
use super::{CaptureError, CompressedFrame, IoError, MAX_HEIGHT, MAX_WIDTH};
use crate::clock::{Nanos, MILLISECOND};
use crate::errno;
use crate::text;

verus! {

/// How many buffers are asked for.
pub const BUFFER_COUNT: u32 = 4;

/// The dequeue timeout of a new source.
pub const DEFAULT_TIMEOUT: Nanos = 250_000_000;

/// How many buffer indices are probed before giving up.
pub const BUFFER_PROBE_LIMIT: u32 = 64;

/// Statistics of the sizes of compressed frames.
#[derive(Debug, Clone, Copy, PartialEq, Eq, Structural)]
pub struct BytesUsedStats {
    /// Number of frames seen.
    pub count: u64,
    /// The smallest size, zero before the first frame.
    pub min: u32,
    /// The largest size.
    pub max: u32,
    /// The sum of all sizes.
    pub total: u64,
    /// The size of the latest frame.
    pub last: u32,
}

impl BytesUsedStats {
    /// The latest size and the mean lie between the smallest and the largest.
    pub open spec fn well_formed(&self) -> bool {
        if self.count == 0 {
            self.min == 0 && self.max == 0 && self.total == 0 && self.last == 0
        } else {
            &&& self.min <= self.last <= self.max
            &&& self.min * self.count <= self.total <= self.max * self.count
        }
    }

    /// The statistics with one more size.
    pub open spec fn recorded(self, bytes: u32) -> BytesUsedStats {
        BytesUsedStats {
            count: (self.count + 1) as u64,
            min: if self.count == 0 || bytes < self.min {
                bytes
            } else {
                self.min
            },
            max: if bytes > self.max {
                bytes
            } else {
                self.max
            },
            total: (self.total + bytes) as u64,
            last: bytes,
        }
    }

    /// Whether one more size of any value can be counted.
    pub open spec fn has_room(&self) -> bool {
        self.count < u64::MAX && self.total + u32::MAX <= u64::MAX
    }

    /// Folds one frame's size in.
    pub fn record(&mut self, bytes: u32)
        requires
            old(self).count < u64::MAX,
            old(self).total + bytes <= u64::MAX,
        ensures
            *final(self) == old(self).recorded(bytes),
            old(self).well_formed() ==> final(self).well_formed(),
    {
        if self.count == 0 || bytes < self.min {
            self.min = bytes;
        }
        if bytes > self.max {
            self.max = bytes;
        }
        self.count = self.count + 1;
        self.total = self.total + bytes as u64;
        self.last = bytes;
        proof {
            let was = *old(self);
            if was.well_formed() && was.count > 0 {
                assert(self.min * self.count <= self.total) by (nonlinear_arith)
                    requires
                        self.min <= was.min,
                        self.min <= bytes,
                        self.count == was.count + 1,
                        was.min * was.count <= was.total,
                        self.total == was.total + bytes,
                ;
                assert(self.total <= self.max * self.count) by (nonlinear_arith)
                    requires
                        was.max <= self.max,
                        bytes <= self.max,
                        self.count == was.count + 1,
                        was.total <= was.max * was.count,
                        self.total == was.total + bytes,
                ;
            } else if was.well_formed() {
                assert(self.min * self.count == bytes) by (nonlinear_arith)
                    requires
                        self.min == bytes,
                        self.count == 1,
                ;
                assert(self.max * self.count == bytes) by (nonlinear_arith)
                    requires
                        self.max == bytes,
                        self.count == 1,
                ;
            }
        }
    }
}

impl Default for BytesUsedStats {
    fn default() -> (r: BytesUsedStats)
        ensures
            r.count == 0,
            r.min == 0,
            r.max == 0,
            r.total == 0,
            r.last == 0,
            r.well_formed(),
    {
        BytesUsedStats { count: 0, min: 0, max: 0, total: 0, last: 0 }
    }
}

/// Whether an error number says that the node went away.
pub open spec fn says_gone(errno: Option<i32>) -> bool {
    errno == Some(19i32) || errno == Some(6i32) || errno == Some(2i32)
}

/// What a failed call on the device means. A node that went away is a disconnection; a call that
/// ran out of time is a stall; everything else may pass.
pub open spec fn classified(e: IoError) -> CaptureError {
    if says_gone(e.errno) {
        CaptureError::Disconnected
    } else if e.timed_out && e.errno != Some(5i32) {
        CaptureError::Timeout(DEFAULT_TIMEOUT)
    } else {
        CaptureError::Io(e)
    }
}

/// Classifies a failed call on the device.
pub fn map_io(e: IoError) -> (r: CaptureError)
    ensures
        r == classified(e),
{
    if let Some(n) = e.errno {
        if n == errno::enodev() || n == errno::enxio() || n == errno::enoent() {
            return CaptureError::Disconnected;
        }
        if n == errno::eio() {
            return CaptureError::Io(e);
        }
    }
    if e.timed_out {
        return CaptureError::Timeout(DEFAULT_TIMEOUT);
    }
    CaptureError::Io(e)
}

/// The format that the driver says it has set.
#[derive(Debug)]
pub struct FormatReply {
    /// The four-character code in words.
    pub fourcc: String,
    pub width: u32,
    pub height: u32,
}

/// The message for a driver that substituted another mode.
pub open spec fn substituted_mode(path: Seq<char>, width: u32, height: u32, got: FormatReply) -> Seq<
    char,
> {
    "asked for MJPG "@ + decoder::size_words(width as nat, height as nat) + ", driver returned "@
        + got.fourcc@ + " "@ + decoder::size_words(got.width as nat, got.height as nat) + " on "@
        + path
}

/// The frame interval that the driver says it uses.
#[derive(Debug)]
pub struct IntervalReply {
    pub numerator: u32,
    pub denominator: u32,
    /// The rate that the interval comes to, in words: `59.940 fps`.
    pub rate: String,
}

/// The message for a driver that substituted another rate.
pub open spec fn substituted_rate(path: Seq<char>, fps: u32, got: IntervalReply) -> Seq<char> {
    "asked for "@ + text::decimal(fps as nat) + " fps, driver returned interval "@ + text::decimal(
        got.numerator as nat,
    ) + "/"@ + text::decimal(got.denominator as nat) + " ("@ + got.rate@ + ") on "@ + path
}

/// The message for a driver that granted too few buffers.
pub open spec fn too_few_buffers(path: Seq<char>, granted: u32) -> Seq<char> {
    "REQBUFS granted "@ + text::decimal(granted as nat) + " buffer(s) on "@ + path
        + ", asked for "@ + text::decimal(BUFFER_COUNT as nat)
        + ";              streaming needs at least 2"@
}

/// Whether an interval of `numerator` / `denominator` seconds is that of `fps` frames a second.
pub open spec fn interval_is(fps: u32, numerator: u32, denominator: u32) -> bool {
    numerator != 0 && denominator == fps * numerator
}

/// Refuses a frame rate of zero, before the node is touched.
pub fn check_rate(fps: u32) -> (r: Result<(), CaptureError>)
    ensures
        r is Ok <==> fps != 0,
        r matches Err(e) ==> e is Config && e->Config_0@ == "fps must be non-zero"@,
{
    if fps == 0 {
        return Err(CaptureError::Config("fps must be non-zero".to_owned()));
    }
    Ok(())
}

/// Holds the format that the driver set against the one that was asked for. A driver that
/// substitutes another mode is refused.
pub fn check_format(path: &str, width: u32, height: u32, got: &FormatReply) -> (r: Result<
    (),
    CaptureError,
>)
    ensures
        r is Ok <==> got.fourcc@ == "MJPG"@ && got.width == width && got.height == height,
        r matches Err(e) ==> e is Config && e->Config_0@ == substituted_mode(
            path@,
            width,
            height,
            *got,
        ),
{
    if !text::same(got.fourcc.as_str(), "MJPG") || got.width != width || got.height != height {
        let mut s = "asked for MJPG ".to_owned();
        decoder::push_size(&mut s, width, height);
        s.append(", driver returned ");
        s.append(got.fourcc.as_str());
        s.append(" ");
        decoder::push_size(&mut s, got.width, got.height);
        s.append(" on ");
        s.append(path);
        return Err(CaptureError::Config(s));
    }
    Ok(())
}

/// Holds the frame interval that the driver set against the rate that was asked for. A driver
/// may write 60 frames a second as 1/60 or as 2/120.
pub fn check_interval(path: &str, fps: u32, got: &IntervalReply) -> (r: Result<(), CaptureError>)
    ensures
        r is Ok <==> interval_is(fps, got.numerator, got.denominator),
        r matches Err(e) ==> e is Config && e->Config_0@ == substituted_rate(path@, fps, *got),
{
    let numerator: u32 = got.numerator;
    let denominator: u32 = got.denominator;
    proof {
        assert(fps * numerator <= u64::MAX) by (nonlinear_arith)
            requires
                fps <= u32::MAX,
                numerator <= u32::MAX,
        ;
    }
    if numerator == 0 || denominator as u64 != fps as u64 * numerator as u64 {
        let mut s = "asked for ".to_owned();
        text::push_decimal(&mut s, fps as u128);
        s.append(" fps, driver returned interval ");
        text::push_decimal(&mut s, numerator as u128);
        s.append("/");
        text::push_decimal(&mut s, denominator as u128);
        s.append(" (");
        s.append(got.rate.as_str());
        s.append(") on ");
        s.append(path);
        return Err(CaptureError::Config(s));
    }
    Ok(())
}

/// Refuses a stream with fewer than two buffers: one that is held and one that is filled is the
/// least that can stream.
pub fn check_buffers(path: &str, granted: u32) -> (r: Result<(), CaptureError>)
    ensures
        r is Ok <==> granted >= 2,
        r matches Err(e) ==> e is Config && e->Config_0@ == too_few_buffers(path@, granted),
{
    if granted < 2 {
        let mut s = "REQBUFS granted ".to_owned();
        text::push_decimal(&mut s, granted as u128);
        s.append(" buffer(s) on ");
        s.append(path);
        s.append(", asked for ");
        text::push_decimal(&mut s, BUFFER_COUNT as u128);
        s.append(";              streaming needs at least 2");
        return Err(CaptureError::Config(s));
    }
    Ok(())
}

/// What the answer to one buffer query means for the count of granted buffers.
#[derive(Debug)]
pub enum BufferProbe {
    /// Query this index next.
    Next(u32),
    /// So many were granted.
    Done(u32),
    Failed(CaptureError),
}

/// What the answer to the query of buffer `index` means for the count.
pub open spec fn buffer_answer(index: u32, reply: Result<(), IoError>) -> BufferProbe {
    match reply {
        Ok(()) => if index + 1 < BUFFER_PROBE_LIMIT {
            BufferProbe::Next((index + 1) as u32)
        } else {
            BufferProbe::Done((index + 1) as u32)
        },
        Err(e) => if e.errno == Some(22i32) {
            BufferProbe::Done(index)
        } else {
            BufferProbe::Failed(classified(e))
        },
    }
}

/// Counts the granted buffers by querying rising indices until one is refused as invalid: that
/// refusal is the answer and no failure.
pub fn granted_buffers(index: u32, reply: Result<(), IoError>) -> (r: BufferProbe)
    requires
        index < BUFFER_PROBE_LIMIT,
    ensures
        r == (match reply {
            Ok(()) => if index + 1 < BUFFER_PROBE_LIMIT {
                BufferProbe::Next((index + 1) as u32)
            } else {
                BufferProbe::Done((index + 1) as u32)
            },
            Err(e) => if e.errno == Some(22i32) {
                BufferProbe::Done(index)
            } else {
                BufferProbe::Failed(classified(e))
            },
        }),
        r == buffer_answer(index, reply),
{
    match reply {
        Ok(()) => {
            if index + 1 < BUFFER_PROBE_LIMIT {
                BufferProbe::Next(index + 1)
            } else {
                BufferProbe::Done(index + 1)
            }
        },
        Err(e) => {
            if let Some(n) = e.errno {
                if n == errno::einval() {
                    return BufferProbe::Done(index);
                }
            }
            BufferProbe::Failed(map_io(e))
        },
    }
}

/// Whether a deadline has passed. None never does.
pub fn expired(deadline: Option<Nanos>, now: Nanos) -> (r: bool)
    ensures
        r == (deadline matches Some(d) && now >= d),
{
    match deadline {
        Some(d) => now >= d,
        None => false,
    }
}

/// How many milliseconds one poll may take.
pub open spec fn poll_time(timeout: Nanos, deadline: Option<Nanos>, now: Nanos) -> int {
    let remaining = match deadline {
        Some(d) => crate::clock::since(d, now),
        None => timeout,
    };
    if remaining / MILLISECOND <= i32::MAX {
        (remaining / MILLISECOND) as int
    } else {
        i32::MAX as int
    }
}

/// How many milliseconds one poll may take, as poll wants it: never negative, which would mean
/// for ever.
pub fn poll_millis(timeout: Nanos, deadline: Option<Nanos>, now: Nanos) -> (ms: i32)
    ensures
        ({
            let remaining = match deadline {
                Some(d) => crate::clock::since(d, now),
                None => timeout,
            };
            ms as int == if remaining / MILLISECOND <= i32::MAX {
                (remaining / MILLISECOND) as int
            } else {
                i32::MAX as int
            }
        }),
        ms >= 0,
        ms == poll_time(timeout, deadline, now),
{
    let remaining: Nanos = match deadline {
        Some(d) => crate::clock::elapsed(d, now),
        None => timeout,
    };
    let ms: Nanos = remaining / MILLISECOND;
    if ms <= 0x7fff_ffff {
        ms as i32
    } else {
        0x7fff_ffff
    }
}

/// What one poll came back with.
#[derive(Debug)]
pub enum PollReply {
    /// A signal cut it short.
    Interrupted,
    Failed(IoError),
    /// The time was up.
    Nothing,
    /// These events are set.
    Events(i16),
}

/// What a poll means for the wait.
#[derive(Debug)]
pub enum PollStep {
    /// A buffer can be dequeued.
    Ready,
    TimedOut,
    /// Poll again.
    Again,
    Failed(CaptureError),
}

/// Whether one of the events of `mask` is set.
pub open spec fn has_event(events: i16, mask: i16) -> bool {
    events & mask != 0
}

/// What a set of poll events says.
pub ghost enum EventMeaning {
    Gone,
    Ready,
    StreamError,
    Unasked,
}

/// The meaning of a set of poll events. A descriptor that was hung up or closed is a
/// disconnection. Data to read counts even beside an error, which alone must not be taken for a
/// ready buffer.
pub open spec fn event_meaning(events: i16) -> EventMeaning {
    if has_event(events, 32i16 | 16i16) {
        EventMeaning::Gone
    } else if has_event(events, 1i16) {
        EventMeaning::Ready
    } else if has_event(events, 8i16) {
        EventMeaning::StreamError
    } else {
        EventMeaning::Unasked
    }
}

/// Whether a poll is to be repeated, which no poll is once the deadline has passed.
pub open spec fn polls_again(reply: PollReply, deadline: Option<Nanos>, now: Nanos) -> bool {
    &&& reply is Interrupted || (reply matches PollReply::Events(events) && event_meaning(events)
        == EventMeaning::Unasked)
    &&& !(deadline matches Some(d) && now >= d)
}

/// Decides what one poll of the device means.
pub fn poll_readable(reply: PollReply, deadline: Option<Nanos>, now: Nanos) -> (r: PollStep)
    ensures
        ({
            let late = deadline matches Some(d) && now >= d;
            match reply {
                PollReply::Interrupted => r == if late {
                    PollStep::TimedOut
                } else {
                    PollStep::Again
                },
                PollReply::Failed(e) => r == PollStep::Failed(classified(e)),
                PollReply::Nothing => r == PollStep::TimedOut,
                PollReply::Events(events) => match event_meaning(events) {
                    EventMeaning::Gone => r == PollStep::Failed(CaptureError::Disconnected),
                    EventMeaning::Ready => r == PollStep::Ready,
                    EventMeaning::StreamError => {
                        &&& r is Failed
                        &&& r->Failed_0 is Io
                        &&& is_stream_error(r->Failed_0->Io_0)
                    },
                    EventMeaning::Unasked => r == if late {
                        PollStep::TimedOut
                    } else {
                        PollStep::Again
                    },
                },
            }
        }),
        r is Again <==> polls_again(reply, deadline, now),
        r is Ready <==> (reply matches PollReply::Events(events) && event_meaning(events)
            == EventMeaning::Ready),
{
    match reply {
        PollReply::Interrupted => {
            if expired(deadline, now) {
                PollStep::TimedOut
            } else {
                PollStep::Again
            }
        },
        PollReply::Failed(e) => PollStep::Failed(map_io(e)),
        PollReply::Nothing => PollStep::TimedOut,
        PollReply::Events(events) => {
            if events & (errno::pollnval() | errno::pollhup()) != 0 {
                return PollStep::Failed(CaptureError::Disconnected);
            }
            if events & errno::pollin() != 0 {
                return PollStep::Ready;
            }
            if events & errno::pollerr() != 0 {
                return PollStep::Failed(CaptureError::Io(stream_error()));
            }
            if expired(deadline, now) {
                PollStep::TimedOut
            } else {
                PollStep::Again
            }
        },
    }
}

/// An input/output error. Its text is the system's own, and the machine decides it.
pub open spec fn is_stream_error(e: IoError) -> bool {
    e.errno == Some(5i32) && !e.timed_out
}

/// The error of a stream that failed without a failed call.
pub fn stream_error() -> (e: IoError)
    ensures
        is_stream_error(e),
{
    let errno: i32 = errno::eio();
    IoError { errno: Some(errno), timed_out: false, text: errno::os_error_text(errno) }
}

/// A device time stamp as a length of time. Negative parts cannot occur on a monotonic clock and
/// count as zero.
pub open spec fn stamp(sec: i64, part: i64, most: i64, unit: nat) -> nat {
    let s = if sec > 0 {
        sec as nat
    } else {
        0
    };
    let p = if part <= 0 {
        0
    } else if part > most {
        most as nat
    } else {
        part as nat
    };
    s * 1_000_000_000 + p * unit
}

/// The time stamp of a buffer, in seconds and microseconds.
pub fn timestamp_to_duration(sec: i64, usec: i64) -> (d: Nanos)
    ensures
        d == stamp(sec, usec, 999_999, 1_000),
{
    let s: u128 = if sec > 0 {
        sec as u128
    } else {
        0
    };
    let p: u128 = if usec <= 0 {
        0
    } else if usec > 999_999 {
        999_999
    } else {
        usec as u128
    };
    s * 1_000_000_000 + p * 1_000
}

/// A reading of the monotonic clock, in seconds and nanoseconds.
pub fn now_monotonic(sec: i64, nsec: i64) -> (d: Nanos)
    ensures
        d == stamp(sec, nsec, 999_999_999, 1),
{
    let s: u128 = if sec > 0 {
        sec as u128
    } else {
        0
    };
    let p: u128 = if nsec <= 0 {
        0
    } else if nsec > 999_999_999 {
        999_999_999
    } else {
        nsec as u128
    };
    s * 1_000_000_000 + p
}

/// One dequeued buffer, copied out of the mapping.
#[derive(Debug)]
pub struct Dequeued {
    pub jpeg: Vec<u8>,
    pub captured_at: Nanos,
    pub sequence: u32,
    pub flags: u32,
    pub bytesused: u32,
    /// The length of the mapping, where the driver claims that it used more.
    pub over_long: Option<usize>,
}

/// Copies a buffer out of its mapping: as many bytes as the driver says it used, and no more
/// than the mapping holds.
pub fn copy_out(
    mapped: &[u8],
    bytesused: u32,
    captured_at: Nanos,
    sequence: u32,
    flags: u32,
) -> (d: Dequeued)
    ensures
        d.jpeg@ == mapped@.take(
            if bytesused <= mapped@.len() {
                bytesused as int
            } else {
                mapped@.len() as int
            },
        ),
        d.captured_at == captured_at,
        d.sequence == sequence,
        d.flags == flags,
        d.bytesused == bytesused,
        d.over_long == (if bytesused > mapped@.len() {
            Some(mapped.len())
        } else {
            None
        }),
{
    let used: usize = bytesused as usize;
    let copied: usize = if used <= mapped.len() {
        used
    } else {
        mapped.len()
    };
    let mut jpeg: Vec<u8> = Vec::new();
    let mut i: usize = 0;
    while i < copied
        invariant
            i <= copied <= mapped@.len(),
            jpeg@ == mapped@.take(i as int),
        decreases copied - i,
    {
        jpeg.push(mapped[i]);
        i = i + 1;
        assert(mapped@.take(i as int) =~= mapped@.take(i - 1).push(mapped@[i - 1]));
    }
    let over_long: Option<usize> = if used > mapped.len() {
        Some(mapped.len())
    } else {
        None
    };
    Dequeued { jpeg, captured_at, sequence, flags, bytesused, over_long }
}

/// The message for a header over the ceiling.
pub open spec fn oversized(sequence: u32, width: u32, height: u32) -> Seq<char> {
    "sequence "@ + text::decimal(sequence as nat) + ": header claims "@ + decoder::size_words(
        width as nat,
        height as nat,
    ) + ", over the                  "@ + decoder::size_words(MAX_WIDTH as nat, MAX_HEIGHT as nat)
        + " ceiling"@
}

/// Why a dequeued buffer is no usable frame, if it is none.
pub open spec fn frame_complaint(d: Dequeued) -> Option<Seq<char>> {
    match d.over_long {
        Some(mapped) => Some(
            "driver reported bytesused="@ + text::decimal(d.bytesused as nat) + " for a "@
                + text::decimal(mapped as nat) + "-byte buffer"@,
        ),
        None => if d.jpeg@.len() == 0 {
            Some("zero-length frame"@)
        } else {
            match jpeg::header_dimensions(d.jpeg@) {
                Err(e) => Some(
                    "sequence "@ + text::decimal(d.sequence as nat) + ", "@ + text::decimal(
                        d.bytesused as nat,
                    ) + " bytes: "@ + e.words(),
                ),
                Ok((width, height)) => if super::in_range(width, height) {
                    None
                } else {
                    Some(oversized(d.sequence, width, height))
                },
            }
        },
    }
}

/// Judges a dequeued buffer. A frame's size is what its own header says.
pub fn judge(d: Dequeued) -> (r: Result<CompressedFrame, CaptureError>)
    ensures
        match frame_complaint(d) {
            Some(why) => r is Err && r->Err_0 is BadFrame && r->Err_0->BadFrame_0@ == why,
            None => {
                &&& r is Ok
                &&& r->Ok_0.jpeg == d.jpeg
                &&& jpeg::header_dimensions(d.jpeg@) == Ok::<(u32, u32), jpeg::JpegHeaderError>(
                    (r->Ok_0.width, r->Ok_0.height),
                )
                &&& r->Ok_0.captured_at == d.captured_at
                &&& r->Ok_0.sequence == d.sequence
            },
        },
{
    if let Some(mapped) = d.over_long {
        let mut s = "driver reported bytesused=".to_owned();
        text::push_decimal(&mut s, d.bytesused as u128);
        s.append(" for a ");
        text::push_decimal(&mut s, mapped as u128);
        s.append("-byte buffer");
        return Err(CaptureError::BadFrame(s));
    }
    if d.jpeg.is_empty() {
        return Err(CaptureError::BadFrame("zero-length frame".to_owned()));
    }
    match jpeg::dimensions(d.jpeg.as_slice()) {
        Err(e) => {
            let mut s = "sequence ".to_owned();
            text::push_decimal(&mut s, d.sequence as u128);
            s.append(", ");
            text::push_decimal(&mut s, d.bytesused as u128);
            s.append(" bytes: ");
            let why = e.text();
            s.append(why.as_str());
            Err(CaptureError::BadFrame(s))
        },
        Ok((width, height)) => {
            if !super::dimensions_in_range(width, height) {
                let mut s = "sequence ".to_owned();
                text::push_decimal(&mut s, d.sequence as u128);
                s.append(": header claims ");
                decoder::push_size(&mut s, width, height);
                s.append(", over the                  ");
                decoder::push_size(&mut s, MAX_WIDTH, MAX_HEIGHT);
                s.append(" ceiling");
                return Err(CaptureError::BadFrame(s));
            }
            Ok(
                CompressedFrame {
                    jpeg: d.jpeg,
                    width,
                    height,
                    captured_at: d.captured_at,
                    sequence: d.sequence,
                },
            )
        },
    }
}

/// A live capture device: the mode that was negotiated, and the state of its stream.
#[derive(Debug)]
pub struct V4l2Source {
    pub path: String,
    /// The width that was negotiated.
    pub width: u32,
    /// The height that was negotiated.
    pub height: u32,
    pub fps: u32,
    /// How long one dequeue waits.
    pub timeout: Nanos,
    pub bytes: BytesUsedStats,
    /// The flags of the latest buffer.
    pub last_flags: u32,
    /// How many buffers were dequeued.
    pub frames: u64,
    /// How many buffers the driver granted.
    pub buffers: u32,
    /// Whether a failed dequeue left the ring unusable, so that it has to be rebuilt first.
    pub stream_broken: bool,
    pub stream_rebuilds: u64,
}

/// The calls that opening the device takes, in order.
#[derive(Debug, Clone, Copy, PartialEq, Eq, Structural)]
pub enum OpenCall {
    /// Open the node.
    Node,
    /// Set the format.
    SetFormat,
    /// Read the frame interval that the driver would use on its own.
    ReadInterval,
    /// Set the frame interval.
    SetInterval,
    /// Allocate buffers, queue all but the first and start streaming.
    StartStream,
}

/// What an opening call answered.
#[derive(Debug)]
pub enum OpenReply {
    Done,
    Format(FormatReply),
    Interval(IntervalReply),
    /// How many buffers the driver granted.
    Buffers(u32),
    Failed(CaptureError),
}

/// An opening under way.
#[derive(Debug)]
pub struct OpenAttempt {
    pub path: String,
    pub width: u32,
    pub height: u32,
    pub fps: u32,
    /// The call to make next.
    pub call: OpenCall,
}

/// What follows an answer.
#[derive(Debug)]
pub enum OpenStep {
    /// Make the next call.
    Call(OpenAttempt),
    Opened(V4l2Source),
    Failed(CaptureError),
}

impl OpenAttempt {
    /// Whether `reply` is an answer to the call that is under way.
    pub open spec fn answered_by(&self, reply: OpenReply) -> bool {
        reply is Failed || match self.call {
            OpenCall::Node => reply is Done,
            OpenCall::SetFormat => reply is Format,
            OpenCall::ReadInterval => reply is Interval,
            OpenCall::SetInterval => reply is Interval,
            OpenCall::StartStream => reply is Buffers,
        }
    }

    /// The attempt with another call to make.
    pub open spec fn at(self, call: OpenCall) -> OpenAttempt {
        OpenAttempt { call, ..self }
    }

    /// Whether the answer to the call under way lets the opening go on.
    pub open spec fn accepts(&self, reply: OpenReply) -> bool {
        match reply {
            OpenReply::Failed(_) => false,
            OpenReply::Done => true,
            OpenReply::Format(got) => got.fourcc@ == "MJPG"@ && got.width == self.width && got.height
                == self.height,
            OpenReply::Interval(got) => self.call == OpenCall::ReadInterval || interval_is(
                self.fps,
                got.numerator,
                got.denominator,
            ),
            OpenReply::Buffers(granted) => granted >= 2,
        }
    }

    /// The call behind `call`, if there is one.
    pub open spec fn following(call: OpenCall) -> Option<OpenCall> {
        match call {
            OpenCall::Node => Some(OpenCall::SetFormat),
            OpenCall::SetFormat => Some(OpenCall::ReadInterval),
            OpenCall::ReadInterval => Some(OpenCall::SetInterval),
            OpenCall::SetInterval => Some(OpenCall::StartStream),
            OpenCall::StartStream => None,
        }
    }

    /// Takes the answer to the call under way.
    ///
    /// The format and the interval that the driver set must be those that were asked for; without
    /// setting the interval the driver would keep its own rate.
    pub fn advance(self, reply: OpenReply) -> (r: OpenStep)
        requires
            self.answered_by(reply),
        ensures
            match reply {
                OpenReply::Failed(e) => r == OpenStep::Failed(e),
                OpenReply::Done => r == OpenStep::Call(self.at(OpenCall::SetFormat)),
                OpenReply::Format(got) => if got.fourcc@ == "MJPG"@ && got.width == self.width
                    && got.height == self.height {
                    r == OpenStep::Call(self.at(OpenCall::ReadInterval))
                } else {
                    &&& r is Failed
                    &&& r->Failed_0 is Config
                    &&& r->Failed_0->Config_0@ == substituted_mode(
                        self.path@,
                        self.width,
                        self.height,
                        got,
                    )
                },
                OpenReply::Interval(got) => if self.call == OpenCall::ReadInterval {
                    r == OpenStep::Call(self.at(OpenCall::SetInterval))
                } else if interval_is(self.fps, got.numerator, got.denominator) {
                    r == OpenStep::Call(self.at(OpenCall::StartStream))
                } else {
                    &&& r is Failed
                    &&& r->Failed_0 is Config
                    &&& r->Failed_0->Config_0@ == substituted_rate(self.path@, self.fps, got)
                },
                OpenReply::Buffers(granted) => if granted >= 2 {
                    &&& r is Opened
                    &&& r->Opened_0.is_fresh(self.path, self.width, self.height, self.fps, granted)
                } else {
                    &&& r is Failed
                    &&& r->Failed_0 is Config
                    &&& r->Failed_0->Config_0@ == too_few_buffers(self.path@, granted)
                },
            },
            r is Failed <==> !self.accepts(reply),
            r is Opened <==> self.accepts(reply) && OpenAttempt::following(self.call) is None,
            r is Call ==> OpenAttempt::following(self.call) == Some(r->Call_0.call),
    {
        match reply {
            OpenReply::Failed(e) => OpenStep::Failed(e),
            OpenReply::Done => OpenStep::Call(self.next(OpenCall::SetFormat)),
            OpenReply::Format(got) => {
                match check_format(self.path.as_str(), self.width, self.height, &got) {
                    Ok(()) => OpenStep::Call(self.next(OpenCall::ReadInterval)),
                    Err(e) => OpenStep::Failed(e),
                }
            },
            OpenReply::Interval(got) => {
                if self.call == OpenCall::ReadInterval {
                    return OpenStep::Call(self.next(OpenCall::SetInterval));
                }
                match check_interval(self.path.as_str(), self.fps, &got) {
                    Ok(()) => OpenStep::Call(self.next(OpenCall::StartStream)),
                    Err(e) => OpenStep::Failed(e),
                }
            },
            OpenReply::Buffers(granted) => {
                match check_buffers(self.path.as_str(), granted) {
                    Ok(()) => OpenStep::Opened(
                        V4l2Source {
                            path: self.path,
                            width: self.width,
                            height: self.height,
                            fps: self.fps,
                            timeout: DEFAULT_TIMEOUT,
                            bytes: BytesUsedStats::default(),
                            last_flags: 0,
                            frames: 0,
                            buffers: granted,
                            stream_broken: false,
                            stream_rebuilds: 0,
                        },
                    ),
                    Err(e) => OpenStep::Failed(e),
                }
            },
        }
    }

    /// The attempt with another call to make.
    fn next(self, call: OpenCall) -> (r: OpenAttempt)
        ensures
            r == self.at(call),
    {
        OpenAttempt {
            path: self.path,
            width: self.width,
            height: self.height,
            fps: self.fps,
            call,
        }
    }
}

/// The next call on the device, for a caller that wants a frame.
#[derive(Debug)]
pub enum FrameCall {
    /// Tear the stream down and build a new one.
    Rebuild,
    /// Wait for a buffer.
    Poll,
    /// Dequeue one buffer and copy it out.
    Dequeue,
    /// That was it.
    Done(Result<CompressedFrame, CaptureError>),
}

impl V4l2Source {
    /// The counters have room for another buffer of any size.
    pub open spec fn has_room(&self) -> bool {
        &&& self.frames < u64::MAX
        &&& self.bytes.has_room()
    }

    /// A source that was just opened.
    pub open spec fn is_fresh(
        &self,
        path: String,
        width: u32,
        height: u32,
        fps: u32,
        granted: u32,
    ) -> bool {
        *self == (V4l2Source {
            path,
            width,
            height,
            fps,
            timeout: DEFAULT_TIMEOUT,
            bytes: BytesUsedStats { count: 0, min: 0, max: 0, total: 0, last: 0 },
            last_flags: 0,
            frames: 0,
            buffers: granted,
            stream_broken: false,
            stream_rebuilds: 0,
        })
    }

    /// Begins to open `path` as MJPEG of this size and rate. A rate of zero is refused before any
    /// call.
    pub fn open(path: String, width: u32, height: u32, fps: u32) -> (r: Result<
        OpenAttempt,
        CaptureError,
    >)
        ensures
            match r {
                Ok(a) => fps != 0 && a == (OpenAttempt {
                    path,
                    width,
                    height,
                    fps,
                    call: OpenCall::Node,
                }),
                Err(e) => fps == 0 && e is Config && e->Config_0@ == "fps must be non-zero"@,
            },
    {
        match check_rate(fps) {
            Ok(()) => Ok(OpenAttempt { path, width, height, fps, call: OpenCall::Node }),
            Err(e) => Err(e),
        }
    }

    /// Changes how long one dequeue waits.
    pub fn set_timeout(&mut self, timeout: Nanos)
        ensures
            *final(self) == (V4l2Source { timeout, ..*old(self) }),
    {
        self.timeout = timeout;
    }

    /// The sizes of the frames so far.
    pub fn bytes_stats(&self) -> (r: BytesUsedStats)
        ensures
            r == self.bytes,
    {
        self.bytes
    }

    /// The size that the driver acknowledged when the node was opened. It stays the same for the
    /// life of the source.
    pub fn negotiated_format(&self) -> (r: (u32, u32))
        ensures
            r == (self.width, self.height),
    {
        (self.width, self.height)
    }

    /// What the negotiated size is compared with, and never where a frame's size comes from.
    pub fn negotiated_dimensions(&self) -> (r: Option<(u32, u32)>)
        ensures
            r == Some((self.width, self.height)),
    {
        Some((self.width, self.height))
    }

    /// The flags of the latest buffer.
    pub fn last_flags(&self) -> (r: u32)
        ensures
            r == self.last_flags,
    {
        self.last_flags
    }

    /// How many buffers the driver granted.
    pub fn buffers(&self) -> (r: u32)
        ensures
            r == self.buffers,
    {
        self.buffers
    }

    /// How many times the stream was rebuilt.
    pub fn stream_rebuilds(&self) -> (r: u64)
        ensures
            r == self.stream_rebuilds,
    {
        self.stream_rebuilds
    }

    /// Marks the stream as broken, so that the next frame takes the rebuild path.
    pub fn force_rebuild_for_test(&mut self)
        ensures
            *final(self) == (V4l2Source { stream_broken: true, ..*old(self) }),
    {
        self.stream_broken = true;
    }

    /// The first call for the next frame: nothing can be dequeued from a broken stream.
    pub fn next_frame(&self) -> (r: FrameCall)
        ensures
            r == (if self.stream_broken {
                FrameCall::Rebuild
            } else {
                FrameCall::Poll
            }),
    {
        if self.stream_broken {
            FrameCall::Rebuild
        } else {
            FrameCall::Poll
        }
    }

    /// Restarts the stream on the same node, whether it is broken or not.
    pub fn restart(&mut self) -> (r: FrameCall)
        ensures
            *final(self) == (V4l2Source { stream_broken: true, ..*old(self) }),
            r == FrameCall::Rebuild,
    {
        self.stream_broken = true;
        FrameCall::Rebuild
    }

    /// Takes the outcome of a rebuild. After a failed one the stream stays broken, so that the
    /// next frame tries again.
    pub fn rebuild_stream(&mut self, granted: Result<u32, CaptureError>) -> (r: Result<
        (),
        CaptureError,
    >)
        requires
            old(self).stream_rebuilds < u64::MAX,
        ensures
            match granted {
                Ok(buffers) => r is Ok && *final(self) == (V4l2Source {
                    buffers,
                    stream_broken: false,
                    stream_rebuilds: (old(self).stream_rebuilds + 1) as u64,
                    ..*old(self)
                }),
                Err(e) => r == Err::<(), CaptureError>(e) && *final(self) == *old(self),
            },
    {
        match granted {
            Ok(buffers) => {
                self.buffers = buffers;
                self.stream_broken = false;
                self.stream_rebuilds = self.stream_rebuilds + 1;
                Ok(())
            },
            Err(e) => Err(e),
        }
    }

    /// Whether a stream is broken after a failed wait, or after a failed dequeue.
    pub open spec fn breaks(broken: bool, e: CaptureError, dequeuing: bool) -> bool {
        broken || if dequeuing {
            !(e is Disconnected)
        } else {
            e is Io
        }
    }

    /// Takes the outcome of the wait for a buffer. A stream error stays until the stream is
    /// rebuilt, so it marks the stream as broken.
    pub fn wait_readable(&mut self, ready: Result<bool, CaptureError>) -> (r: FrameCall)
        ensures
            match ready {
                Ok(true) => r == FrameCall::Dequeue && *final(self) == *old(self),
                Ok(false) => r == FrameCall::Done(Err(CaptureError::Timeout(old(self).timeout)))
                    && *final(self) == *old(self),
                Err(e) => r == FrameCall::Done(Err(e)) && *final(self) == (V4l2Source {
                    stream_broken: old(self).stream_broken || e is Io,
                    ..*old(self)
                }),
            },
            ready matches Err(e) ==> final(self).stream_broken == V4l2Source::breaks(
                old(self).stream_broken,
                e,
                false,
            ),
    {
        match ready {
            Ok(true) => FrameCall::Dequeue,
            Ok(false) => FrameCall::Done(Err(CaptureError::Timeout(self.timeout))),
            Err(CaptureError::Io(e)) => {
                self.stream_broken = true;
                FrameCall::Done(Err(CaptureError::Io(e)))
            },
            Err(e) => FrameCall::Done(Err(e)),
        }
    }

    /// Takes the outcome of a dequeue. A failed one leaves the ring unusable, unless the node is
    /// gone and there is nothing to rebuild.
    pub fn dequeue(&mut self, dequeued: Result<Dequeued, CaptureError>) -> (r: FrameCall)
        requires
            old(self).has_room(),
        ensures
            match dequeued {
                Err(e) => r == FrameCall::Done(Err(e)) && *final(self) == (V4l2Source {
                    stream_broken: old(self).stream_broken || !(e is Disconnected),
                    ..*old(self)
                }),
                Ok(d) => {
                    &&& *final(self) == (V4l2Source {
                        frames: (old(self).frames + 1) as u64,
                        last_flags: d.flags,
                        bytes: old(self).bytes.recorded(d.bytesused),
                        ..*old(self)
                    })
                    &&& old(self).bytes.well_formed() ==> final(self).bytes.well_formed()
                    &&& r is Done
                    &&& match frame_complaint(d) {
                        Some(why) => {
                            &&& r->Done_0 is Err
                            &&& r->Done_0->Err_0 is BadFrame
                            &&& r->Done_0->Err_0->BadFrame_0@ == why
                        },
                        None => {
                            &&& r->Done_0 is Ok
                            &&& r->Done_0->Ok_0.jpeg == d.jpeg
                            &&& jpeg::header_dimensions(d.jpeg@) == Ok::<
                                (u32, u32),
                                jpeg::JpegHeaderError,
                            >((r->Done_0->Ok_0.width, r->Done_0->Ok_0.height))
                            &&& r->Done_0->Ok_0.captured_at == d.captured_at
                            &&& r->Done_0->Ok_0.sequence == d.sequence
                        },
                    }
                },
            },
            dequeued matches Err(e) ==> final(self).stream_broken == V4l2Source::breaks(
                old(self).stream_broken,
                e,
                true,
            ),
    {
        match dequeued {
            Err(e) => {
                match e {
                    CaptureError::Disconnected => {},
                    _ => {
                        self.stream_broken = true;
                    },
                }
                FrameCall::Done(Err(e))
            },
            Ok(d) => {
                self.bytes.record(d.bytesused);
                self.last_flags = d.flags;
                self.frames = self.frames + 1;
                FrameCall::Done(judge(d))
            },
        }
    }

    /// The node, the mode and the buffers in words.
    pub fn describe(&self) -> (s: String)
        ensures
            s@ == "V4L2 "@ + self.path@ + " MJPG "@ + decoder::size_words(
                self.width as nat,
                self.height as nat,
            ) + " @"@ + text::decimal(self.fps as nat) + " fps, "@ + text::decimal(
                self.buffers as nat,
            ) + " mmap buffers"@,
    {
        let mut s = "V4L2 ".to_owned();
        s.append(self.path.as_str());
        s.append(" MJPG ");
        decoder::push_size(&mut s, self.width, self.height);
        s.append(" @");
        text::push_decimal(&mut s, self.fps as u128);
        s.append(" fps, ");
        text::push_decimal(&mut s, self.buffers as u128);
        s.append(" mmap buffers");
        s
    }
}

/// Opens the same node again and again. It does not search for the device.
#[derive(Debug)]
pub struct V4l2Opener {
    pub path: String,
    pub width: u32,
    pub height: u32,
    pub fps: u32,
    /// The dequeue timeout of the sources that it opens, where it is not the default.
    pub timeout: Option<Nanos>,
}

impl V4l2Opener {
    /// An opener of `path` at this size and rate.
    pub fn new(path: String, width: u32, height: u32, fps: u32) -> (r: V4l2Opener)
        ensures
            r == (V4l2Opener { path, width, height, fps, timeout: None }),
    {
        V4l2Opener { path, width, height, fps, timeout: None }
    }

    /// Gives every source to come this dequeue timeout.
    pub fn set_timeout(&mut self, timeout: Nanos)
        ensures
            *final(self) == (V4l2Opener { timeout: Some(timeout), ..*old(self) }),
    {
        self.timeout = Some(timeout);
    }

    /// The node that this opener keeps trying.
    pub fn path(&self) -> (r: &str)
        ensures
            r@ == self.path@,
    {
        self.path.as_str()
    }

    /// Begins to open the node.
    pub fn open(&self) -> (r: Result<OpenAttempt, CaptureError>)
        ensures
            match r {
                Ok(a) => self.fps != 0 && a == (OpenAttempt {
                    path: self.path,
                    width: self.width,
                    height: self.height,
                    fps: self.fps,
                    call: OpenCall::Node,
                }),
                Err(e) => self.fps == 0 && e is Config && e->Config_0@ == "fps must be non-zero"@,
            },
    {
        V4l2Source::open(self.path.clone(), self.width, self.height, self.fps)
    }

    /// Gives a source that was just opened this opener's timeout, if it has one.
    pub fn prepare(&self, source: &mut V4l2Source)
        ensures
            *final(source) == (V4l2Source {
                timeout: match self.timeout {
                    Some(t) => t,
                    None => old(source).timeout,
                },
                ..*old(source)
            }),
    {
        if let Some(t) = self.timeout {
            source.set_timeout(t);
        }
    }

    /// What would be opened, in words. It needs no device.
    pub fn describe(&self) -> (s: String)
        ensures
            s@ == "V4L2 "@ + self.path@ + " MJPG "@ + decoder::size_words(
                self.width as nat,
                self.height as nat,
            ) + " @"@ + text::decimal(self.fps as nat) + " fps"@,
    {
        let mut s = "V4L2 ".to_owned();
        s.append(self.path.as_str());
        s.append(" MJPG ");
        decoder::push_size(&mut s, self.width, self.height);
        s.append(" @");
        text::push_decimal(&mut s, self.fps as u128);
        s.append(" fps");
        s
    }

    /// Changes the mode that the next opening negotiates.
    pub fn set_format(&mut self, width: u32, height: u32, fps: u32) -> (r: bool)
        ensures
            r,
            *final(self) == (V4l2Opener { width, height, fps, ..*old(self) }),
    {
        self.width = width;
        self.height = height;
        self.fps = fps;
        true
    }
}

/// Whether a frame size can be offered: one that is neither empty nor over the ceiling.
pub open spec fn offered(size: (u32, u32)) -> bool {
    size.0 != 0 && size.1 != 0 && super::in_range(size.0, size.1)
}

/// Whether one size comes before another in the list: wider ones first, then taller ones.
pub open spec fn larger(a: (u32, u32), b: (u32, u32)) -> bool {
    a.0 > b.0 || (a.0 == b.0 && a.1 > b.1)
}

/// The sizes that are offered, out of those that the device enumerates: each one once, the
/// largest first.
pub fn enumerate_modes(sizes: &Vec<(u32, u32)>) -> (out: Vec<(u32, u32)>)
    ensures
        forall|m: (u32, u32)|
            #[trigger] out@.contains(m) == (sizes@.contains(m) && offered(m)),
        forall|i: int, j: int| 0 <= i < j < out@.len() ==> larger(out@[i], out@[j]),
{
    let mut out: Vec<(u32, u32)> = Vec::new();
    let mut i: usize = 0;
    while i < sizes.len()
        invariant
            i <= sizes@.len(),
            forall|m: (u32, u32)|
                #[trigger] out@.contains(m) == (sizes@.take(i as int).contains(m) && offered(m)),
            forall|a: int, b: int| 0 <= a < b < out@.len() ==> larger(out@[a], out@[b]),
        decreases sizes@.len() - i,
    {
        let (w, h) = sizes[i];
        let ghost before = out@;
        if w != 0 && h != 0 && super::dimensions_in_range(w, h) {
            insert_mode(&mut out, (w, h));
        }
        proof {
            let m0 = sizes@[i as int];
            let seen = sizes@.take(i as int);
            let now = sizes@.take(i + 1);
            assert(now =~= seen.push(m0));
            assert forall|m: (u32, u32)| #[trigger] out@.contains(m) == (now.contains(m) && offered(m)) by {
                assert(before.contains(m) == (seen.contains(m) && offered(m)));
                assert(now.contains(m) == (seen.contains(m) || m == m0)) by {
                    if seen.contains(m) {
                        let k = choose|k: int| 0 <= k < seen.len() && seen[k] == m;
                        assert(now[k] == m);
                    }
                    assert(now[i as int] == m0);
                }
            }
        }
        i = i + 1;
    }
    assert(sizes@.take(sizes@.len() as int) =~= sizes@);
    out
}

/// Puts a size at its place in the list, unless it is there already.
fn insert_mode(out: &mut Vec<(u32, u32)>, m: (u32, u32))
    requires
        forall|a: int, b: int| 0 <= a < b < old(out)@.len() ==> larger(old(out)@[a], old(out)@[b]),
    ensures
        forall|a: int, b: int|
            0 <= a < b < final(out)@.len() ==> larger(final(out)@[a], final(out)@[b]),
        forall|x: (u32, u32)|
            #[trigger] final(out)@.contains(x) == (old(out)@.contains(x) || x == m),
{
    let mut at: usize = 0;
    while at < out.len() && (out[at].0 > m.0 || (out[at].0 == m.0 && out[at].1 > m.1))
        invariant
            at <= out@.len(),
            out@ == old(out)@,
            forall|k: int| 0 <= k < at ==> larger(out@[k], m),
        decreases out@.len() - at,
    {
        at = at + 1;
    }
    if at < out.len() && out[at].0 == m.0 && out[at].1 == m.1 {
        assert(out@[at as int] == m);
        return;
    }
    let ghost was = out@;
    assert(was == old(out)@);
    assert forall|k: int| at <= k < was.len() implies larger(m, was[k]) by {
        assert(larger(m, was[at as int]));
        if k > at {
            assert(larger(was[at as int], was[k]));
        }
    }
    out.insert(at, m);
    proof {
        let now = out@;
        assert(now == was.insert(at as int, m));
        assert forall|a: int, b: int| 0 <= a < b < now.len() implies larger(now[a], now[b]) by {
            let left = if a < at { a } else { a - 1 };
            let right = if b < at { b } else { b - 1 };
            if a != at && b != at {
                assert(larger(was[left], was[right]));
            }
        }
        assert forall|x: (u32, u32)| now.contains(x) == (was.contains(x) || x == m) by {
            assert(now[at as int] == m);
            if was.contains(x) {
                let k = choose|k: int| 0 <= k < was.len() && was[k] == x;
                assert(now[if k < at { k } else { k + 1 }] == x);
            }
            if now.contains(x) && x != m {
                let k = choose|k: int| 0 <= k < now.len() && now[k] == x;
                assert(was[if k < at { k } else { k - 1 }] == x);
            }
        }
    }
}

} // verus!
