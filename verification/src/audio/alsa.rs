//! What is asked of ALSA, and what its answers mean. The calls themselves are the caller's.

use vstd::prelude::*;

use super::{AudioConfig, AudioError, AudioSide, CHANNELS, SAMPLE_RATE};
use crate::errno;
use crate::text;

verus! {

/// The device that the host's own output goes by.
pub const PLAYBACK_DEVICE: &'static str = "default";

/// What one side asks for, and what it accepts.
#[derive(Clone, Copy, Debug, PartialEq, Eq, Structural)]
pub struct HwPlan {
    /// The opening fails unless the sample rate is granted exactly.
    pub exact_rate: bool,
    /// Whether the device may resample.
    pub allow_resample: bool,
}

impl HwPlan {
    /// The plan of `side`. The captured stream is taken as it is or not at all; the host's output
    /// is the user's own and may convert.
    pub fn for_side(side: AudioSide) -> (p: HwPlan)
        ensures
            p.exact_rate == (side == AudioSide::Capture),
            p.allow_resample == (side == AudioSide::Playback),
    {
        match side {
            AudioSide::Capture => HwPlan { exact_rate: true, allow_resample: false },
            AudioSide::Playback => HwPlan { exact_rate: false, allow_resample: true },
        }
    }
}

/// An error of ALSA: its number and its words.
#[derive(Debug)]
pub struct AlsaFailure {
    pub errno: i32,
    pub text: String,
}

/// Whether an error number says that the card is gone.
pub open spec fn says_gone(errno: i32) -> bool {
    errno == 19 || errno == 2 || errno == 6 || errno == 5
}

/// Whether `r` is the condition that a failure means: somebody else has the card, the card is
/// gone, or something else.
pub open spec fn is_classified(
    r: AudioError,
    device: Seq<char>,
    context: Seq<char>,
    e: AlsaFailure,
) -> bool {
    let why = context + ": "@ + e.text@;
    &&& r.device_words() == device
    &&& if e.errno == 16 {
        r is Busy && r->Busy_why@ == why
    } else if says_gone(e.errno) {
        r is Gone && r->Gone_why@ == why
    } else {
        r is Io && r->Io_why@ == why
    }
}

/// The condition that a failure means, with the device and the context in it.
pub fn classify(device: &str, context: &str, e: &AlsaFailure) -> (r: AudioError)
    ensures
        is_classified(r, device@, context@, *e),
{
    let why = context.to_owned().concat(": ").concat(e.text.as_str());
    let device = device.to_owned();
    if e.errno == errno::ebusy() {
        AudioError::Busy { device, why }
    } else if e.errno == errno::enodev() || e.errno == errno::enoent() || e.errno == errno::enxio()
        || e.errno == errno::eio() {
        AudioError::Gone { device, why }
    } else {
        AudioError::Io { device, why }
    }
}

/// Whether `r` is the condition that a refused setting means.
pub open spec fn is_refusal(
    r: AudioError,
    device: Seq<char>,
    what: Seq<char>,
    e: AlsaFailure,
) -> bool {
    let why = what + ": "@ + e.text@;
    &&& r.device_words() == device
    &&& if e.errno == 16 {
        r is Busy && r->Busy_why@ == why
    } else {
        r is Open && r->Open_why@ == why
    }
}

/// The condition that a refused setting means.
pub fn refusal(device: &str, what: &str, e: &AlsaFailure) -> (r: AudioError)
    ensures
        is_refusal(r, device@, what@, *e),
{
    let why = what.to_owned().concat(": ").concat(e.text.as_str());
    let device = device.to_owned();
    if e.errno == errno::ebusy() {
        AudioError::Busy { device, why }
    } else {
        AudioError::Open { device, why }
    }
}

/// The calls that configuring a PCM takes, in order.
#[derive(Clone, Copy, Debug, PartialEq, Eq, Structural)]
pub enum HwCall {
    /// Fetch the parameters.
    Any,
    /// Interleaved access.
    Access,
    /// Signed sixteen-bit samples.
    Format,
    Channels,
    /// Switch resampling off. Skipped where the plan allows it.
    NoResample,
    Rate,
    PeriodSize,
    BufferSize,
    Apply,
    GetRate,
    GetChannels,
    GetPeriodSize,
    GetBufferSize,
}

impl HwCall {
    /// What the call is named in a complaint.
    pub open spec fn words(self) -> Seq<char> {
        match self {
            HwCall::Any => "hw_params"@,
            HwCall::Access => "access RW_INTERLEAVED"@,
            HwCall::Format => "format S16_LE"@,
            HwCall::Channels => "2 channels"@,
            HwCall::NoResample => "no resampling"@,
            HwCall::Rate => "48000 Hz"@,
            HwCall::PeriodSize => "period size"@,
            HwCall::BufferSize => "buffer size"@,
            HwCall::Apply => "applying hw params"@,
            HwCall::GetRate => "get_rate"@,
            HwCall::GetChannels => "get_channels"@,
            HwCall::GetPeriodSize => "get_period_size"@,
            HwCall::GetBufferSize => "get_buffer_size"@,
        }
    }

    /// Whether the call sets something that the device may not have: its refusal says that the
    /// device would not open, and not that it failed.
    pub open spec fn is_setting(self) -> bool {
        self is Access || self is Format || self is Channels || self is NoResample || self is Rate
    }

    /// The call after this one, and `None` after the last.
    pub open spec fn following(self, plan: HwPlan) -> Option<HwCall> {
        match self {
            HwCall::Any => Some(HwCall::Access),
            HwCall::Access => Some(HwCall::Format),
            HwCall::Format => Some(HwCall::Channels),
            HwCall::Channels => if plan.allow_resample {
                Some(HwCall::Rate)
            } else {
                Some(HwCall::NoResample)
            },
            HwCall::NoResample => Some(HwCall::Rate),
            HwCall::Rate => Some(HwCall::PeriodSize),
            HwCall::PeriodSize => Some(HwCall::BufferSize),
            HwCall::BufferSize => Some(HwCall::Apply),
            HwCall::Apply => Some(HwCall::GetRate),
            HwCall::GetRate => Some(HwCall::GetChannels),
            HwCall::GetChannels => Some(HwCall::GetPeriodSize),
            HwCall::GetPeriodSize => Some(HwCall::GetBufferSize),
            HwCall::GetBufferSize => None,
        }
    }

    /// The number that the call asks for, where it asks for one: two channels at 48 kHz, the
    /// ring's period, and a buffer of so many periods.
    pub open spec fn asks_for(self, config: AudioConfig) -> Option<i64> {
        match self {
            HwCall::Channels => Some(2),
            HwCall::Rate => Some(48_000),
            HwCall::PeriodSize => Some(config.ring.period_frames as i64),
            HwCall::BufferSize => Some((config.ring.period_frames * config.device_periods) as i64),
            _ => None,
        }
    }

    /// The number that the call asks for, where it asks for one.
    pub fn value(self, config: &AudioConfig) -> (v: Option<i64>)
        requires
            config.ring.period_frames * config.device_periods <= usize::MAX,
        ensures
            v == self.asks_for(*config),
    {
        match self {
            HwCall::Channels => Some(CHANNELS as i64),
            HwCall::Rate => Some(SAMPLE_RATE as i64),
            HwCall::PeriodSize => Some(config.ring.period_frames as i64),
            HwCall::BufferSize => Some((config.ring.period_frames * config.device_periods) as i64),
            _ => None,
        }
    }

    /// What the call is named in a complaint.
    fn text(self) -> (s: &'static str)
        ensures
            s@ == self.words(),
    {
        match self {
            HwCall::Any => "hw_params",
            HwCall::Access => "access RW_INTERLEAVED",
            HwCall::Format => "format S16_LE",
            HwCall::Channels => "2 channels",
            HwCall::NoResample => "no resampling",
            HwCall::Rate => "48000 Hz",
            HwCall::PeriodSize => "period size",
            HwCall::BufferSize => "buffer size",
            HwCall::Apply => "applying hw params",
            HwCall::GetRate => "get_rate",
            HwCall::GetChannels => "get_channels",
            HwCall::GetPeriodSize => "get_period_size",
            HwCall::GetBufferSize => "get_buffer_size",
        }
    }

    /// The call after this one.
    fn next(self, plan: HwPlan) -> (r: Option<HwCall>)
        ensures
            r == self.following(plan),
    {
        match self {
            HwCall::Any => Some(HwCall::Access),
            HwCall::Access => Some(HwCall::Format),
            HwCall::Format => Some(HwCall::Channels),
            HwCall::Channels => {
                if plan.allow_resample {
                    Some(HwCall::Rate)
                } else {
                    Some(HwCall::NoResample)
                }
            },
            HwCall::NoResample => Some(HwCall::Rate),
            HwCall::Rate => Some(HwCall::PeriodSize),
            HwCall::PeriodSize => Some(HwCall::BufferSize),
            HwCall::BufferSize => Some(HwCall::Apply),
            HwCall::Apply => Some(HwCall::GetRate),
            HwCall::GetRate => Some(HwCall::GetChannels),
            HwCall::GetChannels => Some(HwCall::GetPeriodSize),
            HwCall::GetPeriodSize => Some(HwCall::GetBufferSize),
            HwCall::GetBufferSize => None,
        }
    }
}

/// What follows an answer while a PCM is configured.
#[derive(Debug)]
pub enum HwStep {
    /// Make this call.
    Call(HwCall),
    Configured,
    Failed(AudioError),
}

/// Whether what was granted is what this client means.
pub open spec fn acceptable(plan: HwPlan, rate: u32, channels: u32) -> bool {
    channels == 2 && (plan.exact_rate ==> rate == SAMPLE_RATE)
}

/// The message for a device that granted something else.
pub open spec fn unexpected_device(rate: u32, channels: u32) -> Seq<char> {
    "asked for "@ + text::decimal(SAMPLE_RATE as nat) + " Hz / "@ + text::decimal(CHANNELS as nat)
        + " ch S16_LE and got "@ + text::decimal(rate as nat) + " Hz / "@ + text::decimal(
        channels as nat,
    ) + " ch; this device is not the one this client expects"@
}

/// Holds the granted rate and channels against the plan.
pub fn check_granted(device: &str, plan: HwPlan, rate: u32, channels: u32) -> (r: Result<
    (),
    AudioError,
>)
    ensures
        r is Ok <==> acceptable(plan, rate, channels),
        r matches Err(e) ==> e is Open && e->Open_device@ == device@ && e->Open_why@
            == unexpected_device(rate, channels),
{
    if channels != CHANNELS as u32 || (plan.exact_rate && rate != SAMPLE_RATE) {
        let mut why = "asked for ".to_owned();
        text::push_decimal(&mut why, SAMPLE_RATE as u128);
        why.append(" Hz / ");
        text::push_decimal(&mut why, CHANNELS as u128);
        why.append(" ch S16_LE and got ");
        text::push_decimal(&mut why, rate as u128);
        why.append(" Hz / ");
        text::push_decimal(&mut why, channels as u128);
        why.append(" ch; this device is not the one this client expects");
        return Err(AudioError::Open { device: device.to_owned(), why });
    }
    Ok(())
}

/// Takes the answer to one call while a PCM of `side` is configured. `rate` is what the device
/// said its rate is, once it was asked, and a reading is the number that a call returned.
pub fn configure(
    device: &str,
    side: AudioSide,
    call: HwCall,
    reply: Result<u32, AlsaFailure>,
    rate: u32,
) -> (r: HwStep)
    ensures
        ({
            let plan = HwPlan {
                exact_rate: side == AudioSide::Capture,
                allow_resample: side == AudioSide::Playback,
            };
            match reply {
                Err(e) => {
                    &&& r is Failed
                    &&& if call.is_setting() {
                        is_refusal(r->Failed_0, device@, call.words(), e)
                    } else {
                        is_classified(r->Failed_0, device@, call.words(), e)
                    }
                },
                Ok(reading) => if call == HwCall::GetChannels && !acceptable(plan, rate, reading) {
                    &&& r is Failed
                    &&& r->Failed_0 is Open
                    &&& r->Failed_0->Open_device@ == device@
                    &&& r->Failed_0->Open_why@ == unexpected_device(rate, reading)
                } else {
                    r == match call.following(plan) {
                        Some(next) => HwStep::Call(next),
                        None => HwStep::Configured,
                    }
                },
            }
        }),
{
    let plan = HwPlan::for_side(side);
    match reply {
        Err(e) => {
            let setting = match call {
                HwCall::Access => true,
                HwCall::Format => true,
                HwCall::Channels => true,
                HwCall::NoResample => true,
                HwCall::Rate => true,
                _ => false,
            };
            if setting {
                HwStep::Failed(refusal(device, call.text(), &e))
            } else {
                HwStep::Failed(classify(device, call.text(), &e))
            }
        },
        Ok(reading) => {
            if call == HwCall::GetChannels {
                match check_granted(device, plan, rate, reading) {
                    Ok(()) => {},
                    Err(e) => {
                        return HwStep::Failed(e);
                    },
                }
            }
            match call.next(plan) {
                Some(next) => HwStep::Call(next),
                None => HwStep::Configured,
            }
        },
    }
}

/// How long one wait for the device is, in milliseconds, where a period has so many frames.
pub open spec fn wait_for(frames: int) -> int {
    if frames * 1000 / 48_000 >= 5 {
        frames * 1000 / 48_000
    } else {
        5
    }
}

/// How long one wait for the device is, in milliseconds: one period, and at least five.
pub fn wait_ms(config: &AudioConfig) -> (ms: u32)
    requires
        config.ring.period_frames * 1000 <= u64::MAX,
    ensures
        ({
            let period = (config.ring.period_frames * 1000 / 48_000) as u32;
            ms == if period >= 5 {
                period
            } else {
                5u32
            }
        }),
        wait_for(config.ring.period_frames as int) <= u32::MAX ==> ms == wait_for(
            config.ring.period_frames as int,
        ),
{
    let period: u32 = (config.ring.period_frames as u64 * 1000 / SAMPLE_RATE as u64) as u32;
    if period >= 5 {
        period
    } else {
        5
    }
}

/// The error of a device call that was cut short because the threads are to stop.
pub fn stopping(device: &str) -> (e: AudioError)
    ensures
        e is Io,
        e->Io_device@ == device@,
        e->Io_why@ == "the audio threads are stopping"@,
{
    AudioError::Io {
        device: device.to_owned(),
        why: "the audio threads are stopping".to_owned(),
    }
}

/// What waiting for the device came back with.
#[derive(Debug)]
pub enum WaitReply {
    Ready,
    TimedOut,
    Failed(AlsaFailure),
}

/// What a transfer of samples came back with.
#[derive(Debug)]
pub enum MoveReply {
    /// So many frames have moved.
    Frames(usize),
    Failed(AlsaFailure),
}

/// What moving a period takes next.
#[derive(Debug)]
pub enum MoveCall {
    /// Wait for the device.
    Wait,
    /// Move what is left, from this sample on.
    Move(usize),
    /// Recover the stream after this failure, and wait again.
    Recover(AlsaFailure),
    Done(Result<(), AudioError>),
}

/// A period on its way through a device that takes or gives it in pieces.
#[derive(Clone, Copy, Debug, PartialEq, Eq, Structural)]
pub struct Transfer {
    /// Frames in the period.
    pub frames: usize,
    /// Frames that have moved.
    pub done: usize,
}

impl Transfer {
    /// No more frames have moved than there are.
    pub open spec fn well_formed(&self) -> bool {
        self.done <= self.frames && self.frames * 2 <= usize::MAX
    }

    /// A period of `samples` samples, none of which has moved.
    pub fn new(samples: usize) -> (t: Transfer)
        ensures
            t.well_formed(),
            t.frames == samples / 2,
            t.done == 0,
    {
        Transfer { frames: samples / CHANNELS, done: 0 }
    }

    /// Whether `r` is what comes next: the period is through, the thread is to stop, or the device
    /// is waited for.
    pub open spec fn goes_on(self, device: Seq<char>, stop: bool, r: MoveCall) -> bool {
        if self.done >= self.frames {
            r == MoveCall::Done(Ok(()))
        } else if stop {
            &&& r is Done
            &&& r->Done_0 is Err
            &&& r->Done_0->Err_0 is Io
            &&& r->Done_0->Err_0->Io_device@ == device
            &&& r->Done_0->Err_0->Io_why@ == "the audio threads are stopping"@
        } else {
            r == MoveCall::Wait
        }
    }

    /// What comes next, at the beginning and after a recovery. `stop` is whether the thread is to
    /// stop by now.
    pub fn next(&self, device: &str, stop: bool) -> (r: MoveCall)
        ensures
            self.goes_on(device@, stop, r),
    {
        if self.done >= self.frames {
            MoveCall::Done(Ok(()))
        } else if stop {
            MoveCall::Done(Err(stopping(device)))
        } else {
            MoveCall::Wait
        }
    }

    /// Takes the outcome of a wait. A device that says to try again has only timed out; any other
    /// failure is recovered from in place. Between two waits the thread stops if it is to.
    pub fn wait_ready(&self, device: &str, reply: WaitReply, stop: bool) -> (r: MoveCall)
        requires
            self.well_formed(),
        ensures
            match reply {
                WaitReply::Ready => r == MoveCall::Move((self.done * 2) as usize),
                WaitReply::TimedOut => self.goes_on(device@, stop, r),
                WaitReply::Failed(e) => if e.errno == 11 {
                    self.goes_on(device@, stop, r)
                } else {
                    r == MoveCall::Recover(e)
                },
            },
    {
        match reply {
            WaitReply::Ready => MoveCall::Move(self.done * CHANNELS),
            WaitReply::TimedOut => self.next(device, stop),
            WaitReply::Failed(e) => {
                if e.errno == errno::eagain() {
                    self.next(device, stop)
                } else {
                    MoveCall::Recover(e)
                }
            },
        }
    }

    /// Takes the outcome of a transfer. No frames at all means to wait again.
    pub fn moved(&mut self, device: &str, reply: MoveReply, stop: bool) -> (r: MoveCall)
        requires
            old(self).well_formed(),
            reply matches MoveReply::Frames(n) ==> n <= old(self).frames - old(self).done,
        ensures
            final(self).well_formed(),
            final(self).frames == old(self).frames,
            match reply {
                MoveReply::Frames(n) => {
                    &&& final(self).done == old(self).done + n
                    &&& final(self).goes_on(device@, stop, r)
                },
                MoveReply::Failed(e) => {
                    &&& *final(self) == *old(self)
                    &&& if e.errno == 11 {
                        final(self).goes_on(device@, stop, r)
                    } else {
                        r == MoveCall::Recover(e)
                    }
                },
            },
    {
        match reply {
            MoveReply::Frames(n) => {
                self.done = self.done + n;
                self.next(device, stop)
            },
            MoveReply::Failed(e) => {
                if e.errno == errno::eagain() {
                    self.next(device, stop)
                } else {
                    MoveCall::Recover(e)
                }
            },
        }
    }
}

/// A PCM of ALSA in words.
pub open spec fn pcm_words(device: Seq<char>) -> Seq<char> {
    "ALSA "@ + device + " S16_LE "@ + text::decimal(SAMPLE_RATE as nat) + " Hz "@ + text::decimal(
        CHANNELS as nat,
    ) + " ch"@
}

/// A PCM of ALSA in words.
pub fn describe_pcm(device: &str) -> (s: String)
    ensures
        s@ == pcm_words(device@),
{
    let mut s = "ALSA ".to_owned();
    s.append(device);
    s.append(" S16_LE ");
    text::push_decimal(&mut s, SAMPLE_RATE as u128);
    s.append(" Hz ");
    text::push_decimal(&mut s, CHANNELS as u128);
    s.append(" ch");
    s
}

/// What the opener of the host's output remembers.
#[derive(Debug)]
pub struct DefaultSinkOpener {
    pub device: String,
    pub config: AudioConfig,
}

impl DefaultSinkOpener {
    /// The opener of the host's default output.
    pub fn new(config: AudioConfig) -> (o: DefaultSinkOpener)
        ensures
            o.device@ == "default"@,
            o.config == config,
    {
        DefaultSinkOpener { device: PLAYBACK_DEVICE.to_owned(), config }
    }

    /// The opener of another output.
    pub fn named(device: &str, config: AudioConfig) -> (o: DefaultSinkOpener)
        ensures
            o.device@ == device@,
            o.config == config,
    {
        DefaultSinkOpener { device: device.to_owned(), config }
    }

    /// What would be opened, in words.
    pub fn describe(&self) -> (s: String)
        ensures
            s@ == "ALSA "@ + self.device@,
    {
        "ALSA ".to_owned().concat(self.device.as_str())
    }
}

/// What the opener of one fixed card remembers.
#[derive(Debug)]
pub struct FixedSourceOpener {
    pub device: String,
    pub config: AudioConfig,
}

impl FixedSourceOpener {
    /// The opener of this card.
    pub fn new(device: &str, config: AudioConfig) -> (o: FixedSourceOpener)
        ensures
            o.device@ == device@,
            o.config == config,
    {
        FixedSourceOpener { device: device.to_owned(), config }
    }

    /// What would be opened, in words.
    pub fn describe(&self) -> (s: String)
        ensures
            s@ == "ALSA "@ + self.device@,
    {
        "ALSA ".to_owned().concat(self.device.as_str())
    }
}

} // verus!
