//! One frame to a file.
//!
//! Which frame is kept is decided here, one event at a time: the caller asks the source, reads the
//! clock, pauses and restarts the stream as it is told. What was thrown away on the way is counted
//! and reported: a shot that threw away eight stale frames and restarted the stream is another
//! event than one that took the first frame it saw.
//!
//! A JPEG that is written is the device's own bytes. A PNG is that frame, decoded by the same
//! decoder as everything else and encoded again.

use vstd::prelude::*;

use super::civil::{self, utc_parts};
use crate::capture::decoder::{self, push_size};
use crate::capture::{
    self, jpeg, layout, CaptureError, CompressedFrame, DecodeError, DecodedFrame, Decoder,
};
use crate::clock::{self, Nanos};
use crate::count;
use crate::path::{self, NodePath};
use crate::text;

verus! {

/// How many frames at another size than the negotiated one buy one restart of the stream. At 60
/// frames a second it is half a second, and it is well above the eight stale frames that a device
/// sends after an idle period.
pub const RESTART_AFTER: u32 = 30;

/// How many frames at another size end the attempt. The restart has had twice as long by then as
/// it took to come to it.
pub const GIVE_UP_AFTER: u32 = 90;

/// How long to pause after an error of the source, so that a source that fails at once makes no
/// hot loop.
pub const ERROR_PAUSE: Nanos = 1_000_000;

/// The longest time limit, in seconds.
pub const MAX_TIMEOUT_SECS: u64 = 3600;

/// What the command line asks for.
#[derive(Debug)]
pub struct ShotArgs {
    /// Where to write. Without it, a name with the time in the working directory.
    pub path: Option<String>,
    /// Frames to discard after streaming starts.
    pub skip: u32,
    /// Whether to accept a frame of another size than the negotiated one.
    pub any_size: bool,
    /// After how many seconds to give up.
    pub timeout: u64,
}

/// Which frames are acceptable.
#[derive(Clone, Copy, Debug, PartialEq, Eq, Structural)]
pub struct ShotPolicy {
    /// Frames to discard before looking at any of them.
    pub skip: u32,
    /// Take the first whole frame whatever its size, and never restart the stream.
    pub any_size: bool,
    /// Frames at another size that buy one restart.
    pub restart_after: u32,
    /// Frames at another size, in all, before giving up.
    pub give_up_after: u32,
}

impl ShotPolicy {
    /// The policy that a command line asks for.
    pub fn from_args(args: &ShotArgs) -> (p: ShotPolicy)
        ensures
            p == (ShotPolicy {
                skip: args.skip,
                any_size: args.any_size,
                restart_after: RESTART_AFTER,
                give_up_after: GIVE_UP_AFTER,
            }),
    {
        ShotPolicy {
            skip: args.skip,
            any_size: args.any_size,
            restart_after: RESTART_AFTER,
            give_up_after: GIVE_UP_AFTER,
        }
    }
}

impl Default for ShotPolicy {
    fn default() -> (p: ShotPolicy)
        ensures
            p == (ShotPolicy {
                skip: 8,
                any_size: false,
                restart_after: RESTART_AFTER,
                give_up_after: GIVE_UP_AFTER,
            }),
    {
        ShotPolicy {
            skip: 8,
            any_size: false,
            restart_after: RESTART_AFTER,
            give_up_after: GIVE_UP_AFTER,
        }
    }
}

/// The frame that was kept, and what was thrown away to get it.
#[derive(Debug)]
pub struct Shot {
    /// The complete JPEG as the device sent it.
    pub jpeg: Vec<u8>,
    /// Width from this frame's own header.
    pub width: u32,
    /// Height from this frame's own header.
    pub height: u32,
    /// Frames that were delivered before this one and were not at another size: those to discard,
    /// the truncated ones, and those whose header could not be read or is over the ceiling.
    pub skipped: u32,
    /// Frames that the source itself refused. They take nothing from the frames to discard.
    pub discarded: u32,
    /// Frames at another size than the negotiated one.
    pub mismatched: u32,
    /// Whether the stream was restarted.
    pub restarted: bool,
}

/// Why no frame was kept.
#[derive(Debug)]
pub enum ShotError {
    /// The deadline passed with nothing acceptable.
    Timeout { waited: Nanos, skipped: u32, discarded: u32, mismatched: u32 },
    /// The node went away.
    Disconnected { skipped: u32 },
    /// Frames kept arriving at another size, and a restart did not help.
    WrongSize {
        want_width: u32,
        want_height: u32,
        saw_width: u32,
        saw_height: u32,
        mismatched: u32,
        restarted: bool,
    },
    /// The source refused its configuration. Waiting changes nothing about that.
    Config(String),
    /// A signal arrived.
    Interrupted,
}

impl ShotError {
    /// The error as text.
    pub open spec fn words(&self) -> Seq<char> {
        match self {
            ShotError::Timeout { waited, skipped, discarded, mismatched } =>
                "no usable frame within "@ + text::duration(*waited as nat) + " ("@ + text::decimal(
                *skipped as nat,
            ) + " frame(s) skipped, "@ + text::decimal(*discarded as nat)
                + " refused by the source, "@ + text::decimal(*mismatched as nat)
                + " at another size)"@,
            ShotError::Disconnected { skipped } => "the capture device disconnected after "@
                + text::decimal(*skipped as nat) + " frame(s)"@,
            ShotError::WrongSize {
                want_width,
                want_height,
                saw_width,
                saw_height,
                mismatched,
                restarted,
            } => "the device is streaming "@ + decoder::size_words(
                *saw_width as nat,
                *saw_height as nat,
            ) + " but "@ + decoder::size_words(*want_width as nat, *want_height as nat)
                + " was negotiated; "@ + text::decimal(*mismatched as nat)
                + " frames at the wrong size"@ + (if *restarted {
                ", and restarting the stream did not fix it"@
            } else {
                ""@
            })
                + ". The stream is stuck, not the device (C14) — replug the dongle, or pass --any-size to keep the frame as it is"@,
            ShotError::Config(what) => "capture configuration: "@ + what@,
            ShotError::Interrupted => "interrupted"@,
        }
    }

    /// The error as text.
    pub fn text(&self) -> (s: String)
        ensures
            s@ == self.words(),
    {
        match self {
            ShotError::Timeout { waited, skipped, discarded, mismatched } => {
                let mut s = "no usable frame within ".to_owned();
                text::push_duration(&mut s, *waited);
                s.append(" (");
                text::push_decimal(&mut s, *skipped as u128);
                s.append(" frame(s) skipped, ");
                text::push_decimal(&mut s, *discarded as u128);
                s.append(" refused by the source, ");
                text::push_decimal(&mut s, *mismatched as u128);
                s.append(" at another size)");
                s
            },
            ShotError::Disconnected { skipped } => {
                let mut s = "the capture device disconnected after ".to_owned();
                text::push_decimal(&mut s, *skipped as u128);
                s.append(" frame(s)");
                s
            },
            ShotError::WrongSize {
                want_width,
                want_height,
                saw_width,
                saw_height,
                mismatched,
                restarted,
            } => {
                let mut s = "the device is streaming ".to_owned();
                push_size(&mut s, *saw_width, *saw_height);
                s.append(" but ");
                push_size(&mut s, *want_width, *want_height);
                s.append(" was negotiated; ");
                text::push_decimal(&mut s, *mismatched as u128);
                s.append(" frames at the wrong size");
                if *restarted {
                    s.append(", and restarting the stream did not fix it");
                } else {
                    s.append("");
                }
                s.append(
                    ". The stream is stuck, not the device (C14) — replug the dongle, or pass --any-size to keep the frame as it is",
                );
                s
            },
            ShotError::Config(what) => "capture configuration: ".to_owned().concat(what.as_str()),
            ShotError::Interrupted => "interrupted".to_owned(),
        }
    }
}

// ---- which frame is kept -------------------------------------------------------------------

/// Whether a frame ends in the end-of-image marker, with nothing but zero bytes behind it.
pub open spec fn is_whole(jpeg: Seq<u8>) -> bool {
    exists|n: int|
        #![trigger jpeg[n - 1]]
        2 <= n <= jpeg.len() && jpeg[n - 2] == 0xFF && jpeg[n - 1] == 0xD9 && (forall|k: int|
            n <= k < jpeg.len() ==> jpeg[k] == 0)
}

/// Whether a frame ends in the end-of-image marker. Zero bytes behind it are padding; anything
/// else there means that the frame was cut off.
pub fn ends_in_eoi(jpeg: &[u8]) -> (r: bool)
    ensures
        r == is_whole(jpeg@),
{
    let mut end: usize = jpeg.len();
    while end > 0 && jpeg[end - 1] == 0
        invariant
            end <= jpeg@.len(),
            forall|k: int| end <= k < jpeg@.len() ==> jpeg@[k] == 0,
        decreases end,
    {
        end = end - 1;
    }
    proof {
        if is_whole(jpeg@) {
            let n = choose|n: int|
                #![trigger jpeg@[n - 1]]
                2 <= n <= jpeg@.len() && jpeg@[n - 2] == 0xFF && jpeg@[n - 1] == 0xD9 && (forall|
                    k: int,
                |
                    n <= k < jpeg@.len() ==> jpeg@[k] == 0);
            if n > end {
                assert(jpeg@[n - 1] == 0);
            } else if n < end {
                assert(jpeg@[end - 1] == 0);
            }
        } else if end >= 2 {
            assert(!(jpeg@[end - 2] == 0xFF && jpeg@[end - 1] == 0xD9));
        }
    }
    end >= 2 && jpeg[end - 2] == 0xFF && jpeg[end - 1] == 0xD9
}

/// What becomes of a frame.
#[derive(Clone, Copy, Debug, PartialEq, Eq, Structural)]
pub enum Judgement {
    /// One of the frames to discard.
    Skipped,
    /// It does not end in the end-of-image marker.
    Truncated,
    /// Its header cannot be read.
    Unreadable,
    /// Its header claims a size over the ceiling.
    TooLarge,
    /// It is not of the negotiated size.
    WrongSize { width: u32, height: u32 },
    Kept { width: u32, height: u32 },
}

/// What has happened on the way to a frame.
#[derive(Clone, Copy, Debug)]
pub struct Picker {
    pub policy: ShotPolicy,
    /// The size to compare with, where there is one to compare with.
    pub negotiated: Option<(u32, u32)>,
    pub started: Nanos,
    pub deadline: Nanos,
    pub skipped: u32,
    pub discarded: u32,
    pub mismatched: u32,
    /// Frames at another size since the start or the restart.
    pub consecutive: u32,
    pub restarted: bool,
}

/// What happened.
#[derive(Debug)]
pub enum ShotEvent {
    /// Another pass begins.
    Ready { interrupted: bool },
    /// The source answered.
    Arrived(Result<CompressedFrame, CaptureError>),
    /// The stream was restarted, or not.
    Restarted(Result<(), CaptureError>),
    /// What came was judged, and this is the time.
    Tick { now: Nanos },
}

/// What to do next.
#[derive(Debug)]
pub enum ShotStep {
    /// Ask the source for a frame.
    Ask,
    /// Pause for as long as [`pause_for`] says, then read the clock.
    Pause,
    /// Read the clock.
    Clock,
    /// Restart the stream.
    Restart,
    /// Begin another pass.
    Again,
    Kept(Shot),
    Failed(ShotError),
}

impl Picker {
    /// The beginning.
    pub open spec fn fresh(
        policy: ShotPolicy,
        negotiated: Option<(u32, u32)>,
        started: Nanos,
        deadline: Nanos,
    ) -> Picker {
        Picker {
            policy,
            negotiated: if policy.any_size {
                None
            } else {
                negotiated
            },
            started,
            deadline,
            skipped: 0,
            discarded: 0,
            mismatched: 0,
            consecutive: 0,
            restarted: false,
        }
    }

    /// What becomes of a frame, by the first rule that applies. The size is always that of the
    /// frame's own header.
    pub open spec fn judgement(self, jpeg: Seq<u8>) -> Judgement {
        if self.skipped < self.policy.skip {
            Judgement::Skipped
        } else if !is_whole(jpeg) {
            Judgement::Truncated
        } else {
            match jpeg::header_dimensions(jpeg) {
                Err(_) => Judgement::Unreadable,
                Ok((width, height)) => if !capture::in_range(width, height) {
                    Judgement::TooLarge
                } else if self.negotiated is Some && self.negotiated != Some((width, height)) {
                    Judgement::WrongSize { width, height }
                } else {
                    Judgement::Kept { width, height }
                },
            }
        }
    }

    /// With one more frame thrown away.
    pub open spec fn skipping(self) -> Picker {
        Picker { skipped: count::one_more(self.skipped), ..self }
    }

    /// With one more frame at another size.
    pub open spec fn mismatching(self) -> Picker {
        Picker {
            mismatched: count::one_more(self.mismatched),
            consecutive: count::one_more(self.consecutive),
            ..self
        }
    }

    /// Whether the frames at another size end the attempt.
    pub open spec fn gives_up(self) -> bool {
        self.mismatched >= self.policy.give_up_after
    }

    /// Whether they buy a restart.
    pub open spec fn earns_restart(self) -> bool {
        !self.restarted && self.consecutive >= self.policy.restart_after
    }

    /// What has happened after a frame.
    pub open spec fn after_frame(self, jpeg: Seq<u8>) -> Picker {
        match self.judgement(jpeg) {
            Judgement::Kept { .. } => self,
            Judgement::WrongSize { .. } => {
                let next = self.mismatching();
                if !next.gives_up() && next.earns_restart() {
                    Picker { restarted: true, consecutive: 0, ..next }
                } else {
                    next
                }
            },
            _ => self.skipping(),
        }
    }

    /// What has happened after an event.
    pub open spec fn after(self, event: ShotEvent) -> Picker {
        match event {
            ShotEvent::Arrived(Ok(frame)) => self.after_frame(frame.jpeg@),
            ShotEvent::Arrived(Err(CaptureError::BadFrame(_))) => Picker {
                discarded: count::one_more(self.discarded),
                ..self
            },
            _ => self,
        }
    }

    /// Whether `step` is what follows from `event`.
    pub open spec fn leads_to(self, event: ShotEvent, step: ShotStep) -> bool {
        match event {
            ShotEvent::Ready { interrupted } => if interrupted {
                step matches ShotStep::Failed(e) && e is Interrupted
            } else {
                step is Ask
            },
            ShotEvent::Arrived(Ok(frame)) => match self.judgement(frame.jpeg@) {
                Judgement::Kept { width, height } => {
                    &&& step matches ShotStep::Kept(shot)
                    &&& shot.jpeg == frame.jpeg
                    &&& shot.width == width
                    &&& shot.height == height
                    &&& shot.skipped == self.skipped
                    &&& shot.discarded == self.discarded
                    &&& shot.mismatched == self.mismatched
                    &&& shot.restarted == self.restarted
                },
                Judgement::WrongSize { width, height } => {
                    let next = self.mismatching();
                    let (want_width, want_height) = self.negotiated->0;
                    if next.gives_up() {
                        &&& step matches ShotStep::Failed(e)
                        &&& e == ShotError::WrongSize {
                            want_width,
                            want_height,
                            saw_width: width,
                            saw_height: height,
                            mismatched: next.mismatched,
                            restarted: self.restarted,
                        }
                    } else if next.earns_restart() {
                        step is Restart
                    } else {
                        step is Clock
                    }
                },
                _ => step is Clock,
            },
            ShotEvent::Arrived(Err(e)) => match e {
                CaptureError::Disconnected => step matches ShotStep::Failed(e) && e
                    == ShotError::Disconnected { skipped: self.skipped },
                CaptureError::Config(what) => step matches ShotStep::Failed(e) && e
                    == ShotError::Config(what),
                _ => step is Pause,
            },
            ShotEvent::Restarted(outcome) => match outcome {
                Err(CaptureError::Disconnected) => step matches ShotStep::Failed(e) && e
                    == ShotError::Disconnected { skipped: self.skipped },
                _ => step is Clock,
            },
            ShotEvent::Tick { now } => if now >= self.deadline {
                &&& step matches ShotStep::Failed(e)
                &&& e == ShotError::Timeout {
                    waited: clock::since(now, self.started),
                    skipped: self.skipped,
                    discarded: self.discarded,
                    mismatched: self.mismatched,
                }
            } else {
                step is Again
            },
        }
    }

    /// Begins to look for a frame. `negotiated` is the size that the source negotiated, if any.
    pub fn new(
        policy: ShotPolicy,
        negotiated: Option<(u32, u32)>,
        started: Nanos,
        deadline: Nanos,
    ) -> (p: Picker)
        ensures
            p == Picker::fresh(policy, negotiated, started, deadline),
    {
        Picker {
            policy,
            negotiated: if policy.any_size {
                None
            } else {
                negotiated
            },
            started,
            deadline,
            skipped: 0,
            discarded: 0,
            mismatched: 0,
            consecutive: 0,
            restarted: false,
        }
    }

    /// What becomes of a frame.
    pub fn judge(&self, jpeg: &[u8]) -> (r: Judgement)
        ensures
            r == self.judgement(jpeg@),
    {
        if self.skipped < self.policy.skip {
            return Judgement::Skipped;
        }
        if !ends_in_eoi(jpeg) {
            return Judgement::Truncated;
        }
        let (width, height): (u32, u32) = match jpeg::dimensions(jpeg) {
            Ok(size) => size,
            Err(_) => {
                return Judgement::Unreadable;
            },
        };
        if !capture::dimensions_in_range(width, height) {
            return Judgement::TooLarge;
        }
        if let Some((want_w, want_h)) = self.negotiated {
            if width != want_w || height != want_h {
                return Judgement::WrongSize { width, height };
            }
        }
        Judgement::Kept { width, height }
    }

    /// Takes frames until one is worth keeping, or until the deadline: one event at a time.
    ///
    /// The first frames go away unseen: a device sends stale ones after an idle period. A frame
    /// that is cut off goes away, and so does one whose header cannot be read. The size in the
    /// header is held against the negotiated one, unless any size will do: frames at another size
    /// buy one restart of the stream, and later an error.
    ///
    /// A source that timed out or failed is asked again until the deadline; one that is gone or
    /// misconfigured is not. A frame in hand is judged before the deadline is looked at.
    pub fn pick_frame(&mut self, event: ShotEvent) -> (step: ShotStep)
        ensures
            *final(self) == old(self).after(event),
            old(self).leads_to(event, step),
    {
        match event {
            ShotEvent::Ready { interrupted } => {
                if interrupted {
                    ShotStep::Failed(ShotError::Interrupted)
                } else {
                    ShotStep::Ask
                }
            },
            ShotEvent::Arrived(Ok(frame)) => self.take(frame),
            ShotEvent::Arrived(Err(e)) => match e {
                CaptureError::Disconnected => ShotStep::Failed(
                    ShotError::Disconnected { skipped: self.skipped },
                ),
                CaptureError::Config(what) => ShotStep::Failed(ShotError::Config(what)),
                CaptureError::BadFrame(_) => {
                    self.discarded = self.discarded.saturating_add(1);
                    ShotStep::Pause
                },
                _ => ShotStep::Pause,
            },
            ShotEvent::Restarted(outcome) => match outcome {
                Err(CaptureError::Disconnected) => ShotStep::Failed(
                    ShotError::Disconnected { skipped: self.skipped },
                ),
                _ => ShotStep::Clock,
            },
            ShotEvent::Tick { now } => {
                if now >= self.deadline {
                    ShotStep::Failed(
                        ShotError::Timeout {
                            waited: clock::elapsed(now, self.started),
                            skipped: self.skipped,
                            discarded: self.discarded,
                            mismatched: self.mismatched,
                        },
                    )
                } else {
                    ShotStep::Again
                }
            },
        }
    }

    /// Takes a frame that arrived.
    fn take(&mut self, frame: CompressedFrame) -> (step: ShotStep)
        ensures
            *final(self) == old(self).after_frame(frame.jpeg@),
            old(self).leads_to(ShotEvent::Arrived(Ok(frame)), step),
    {
        match self.judge(frame.jpeg.as_slice()) {
            Judgement::Kept { width, height } => ShotStep::Kept(
                Shot {
                    jpeg: frame.jpeg,
                    width,
                    height,
                    skipped: self.skipped,
                    discarded: self.discarded,
                    mismatched: self.mismatched,
                    restarted: self.restarted,
                },
            ),
            Judgement::WrongSize { width, height } => {
                self.mismatched = self.mismatched.saturating_add(1);
                self.consecutive = self.consecutive.saturating_add(1);
                if self.mismatched >= self.policy.give_up_after {
                    let (want_width, want_height): (u32, u32) = self.negotiated.unwrap();
                    return ShotStep::Failed(
                        ShotError::WrongSize {
                            want_width,
                            want_height,
                            saw_width: width,
                            saw_height: height,
                            mismatched: self.mismatched,
                            restarted: self.restarted,
                        },
                    );
                }
                if !self.restarted && self.consecutive >= self.policy.restart_after {
                    self.restarted = true;
                    self.consecutive = 0;
                    return ShotStep::Restart;
                }
                ShotStep::Clock
            },
            _ => {
                self.skipped = self.skipped.saturating_add(1);
                ShotStep::Clock
            },
        }
    }
}

/// How long to pause after an error: briefly, and never past the deadline.
pub fn pause_for(deadline: Nanos, now: Nanos) -> (r: Nanos)
    ensures
        r == clock::least(ERROR_PAUSE, clock::since(deadline, now)),
{
    clock::shorter(ERROR_PAUSE, clock::elapsed(deadline, now))
}

// ---- what holds of every attempt -----------------------------------------------------------

/// What has happened after a sequence of events.
pub open spec fn after_all(p: Picker, events: Seq<ShotEvent>) -> Picker
    decreases events.len(),
{
    if events.len() == 0 {
        p
    } else {
        after_all(p, events.drop_last()).after(events.last())
    }
}

/// How many frames were delivered.
pub open spec fn frames_among(events: Seq<ShotEvent>) -> nat
    decreases events.len(),
{
    if events.len() == 0 {
        0
    } else {
        frames_among(events.drop_last()) + if events.last() matches ShotEvent::Arrived(Ok(_)) {
            1nat
        } else {
            0
        }
    }
}

/// How often the stream was restarted.
pub open spec fn restarts_among(p: Picker, events: Seq<ShotEvent>) -> nat
    decreases events.len(),
{
    if events.len() == 0 {
        0
    } else {
        let before = after_all(p, events.drop_last());
        restarts_among(p, events.drop_last()) + if !before.restarted && before.after(
            events.last(),
        ).restarted {
            1nat
        } else {
            0
        }
    }
}

proof fn lemma_policy_stays(p: Picker, events: Seq<ShotEvent>)
    ensures
        after_all(p, events).policy == p.policy,
        after_all(p, events).negotiated == p.negotiated,
    decreases events.len(),
{
    if events.len() > 0 {
        lemma_policy_stays(p, events.drop_last());
    }
}

/// A frame that is kept is whole, is inside the ceiling, has the size of its own header, and has
/// the negotiated size where there is one to compare with.
pub proof fn a_kept_frame_is_whole_and_of_the_right_size(
    p: Picker,
    frame: CompressedFrame,
    shot: Shot,
)
    requires
        p.leads_to(ShotEvent::Arrived(Ok(frame)), ShotStep::Kept(shot)),
    ensures
        is_whole(shot.jpeg@),
        jpeg::header_dimensions(shot.jpeg@) == Ok::<(u32, u32), jpeg::JpegHeaderError>(
            (shot.width, shot.height),
        ),
        0 < shot.width,
        0 < shot.height,
        capture::in_range(shot.width, shot.height),
        p.negotiated matches Some(size) ==> size == (shot.width, shot.height),
{
    jpeg::dimensions_are_never_zero(frame.jpeg@);
}

/// However an attempt goes, the stream is restarted at most once, and never where any size will
/// do.
pub proof fn the_stream_is_restarted_at_most_once(
    policy: ShotPolicy,
    negotiated: Option<(u32, u32)>,
    started: Nanos,
    deadline: Nanos,
    events: Seq<ShotEvent>,
)
    ensures
        ({
            let p = Picker::fresh(policy, negotiated, started, deadline);
            &&& restarts_among(p, events) == if after_all(p, events).restarted {
                1nat
            } else {
                0
            }
            &&& policy.any_size ==> restarts_among(p, events) == 0
        }),
    decreases events.len(),
{
    let p = Picker::fresh(policy, negotiated, started, deadline);
    if events.len() > 0 {
        the_stream_is_restarted_at_most_once(
            policy,
            negotiated,
            started,
            deadline,
            events.drop_last(),
        );
        lemma_policy_stays(p, events.drop_last());
    }
}

/// The first frames that are delivered are never kept, however many frames the source itself
/// refused in between.
pub proof fn the_first_frames_are_never_kept(
    policy: ShotPolicy,
    negotiated: Option<(u32, u32)>,
    started: Nanos,
    deadline: Nanos,
    events: Seq<ShotEvent>,
    frame: CompressedFrame,
    shot: Shot,
)
    requires
        after_all(Picker::fresh(policy, negotiated, started, deadline), events).leads_to(
            ShotEvent::Arrived(Ok(frame)),
            ShotStep::Kept(shot),
        ),
    ensures
        frames_among(events) >= policy.skip,
        shot.skipped >= policy.skip,
{
    let p = Picker::fresh(policy, negotiated, started, deadline);
    lemma_policy_stays(p, events);
    lemma_skipped_were_delivered(p, events);
}

proof fn lemma_skipped_were_delivered(p: Picker, events: Seq<ShotEvent>)
    requires
        p.skipped == 0,
    ensures
        after_all(p, events).skipped <= frames_among(events),
    decreases events.len(),
{
    if events.len() > 0 {
        lemma_skipped_were_delivered(p, events.drop_last());
    }
}

/// Whether a frame among the events would have been kept.
pub open spec fn one_was_kept(p: Picker, events: Seq<ShotEvent>) -> bool
    decreases events.len(),
{
    if events.len() == 0 {
        false
    } else {
        one_was_kept(p, events.drop_last()) || match events.last() {
            ShotEvent::Arrived(Ok(frame)) => after_all(p, events.drop_last()).judgement(
                frame.jpeg@,
            ) is Kept,
            _ => false,
        }
    }
}

proof fn lemma_every_frame_is_counted(p: Picker, events: Seq<ShotEvent>)
    requires
        p.skipped == 0,
        p.mismatched == 0,
        !one_was_kept(p, events),
        frames_among(events) <= u32::MAX,
    ensures
        after_all(p, events).skipped + after_all(p, events).mismatched == frames_among(events),
    decreases events.len(),
{
    if events.len() > 0 {
        lemma_every_frame_is_counted(p, events.drop_last());
    }
}

/// The frames that were delivered in front of the kept one are all accounted for: each was either
/// thrown away or at another size, and was counted once.
pub proof fn every_frame_before_the_kept_one_is_counted_once(
    policy: ShotPolicy,
    negotiated: Option<(u32, u32)>,
    started: Nanos,
    deadline: Nanos,
    events: Seq<ShotEvent>,
    frame: CompressedFrame,
    shot: Shot,
)
    requires
        !one_was_kept(Picker::fresh(policy, negotiated, started, deadline), events),
        frames_among(events) <= u32::MAX,
        after_all(Picker::fresh(policy, negotiated, started, deadline), events).leads_to(
            ShotEvent::Arrived(Ok(frame)),
            ShotStep::Kept(shot),
        ),
    ensures
        shot.skipped + shot.mismatched == frames_among(events),
{
    lemma_every_frame_is_counted(
        Picker::fresh(policy, negotiated, started, deadline),
        events,
    );
}

// ---- where it goes -------------------------------------------------------------------------

/// Where the shot goes, and in what format.
#[derive(Debug, PartialEq, Eq)]
pub enum ShotTarget {
    /// The JPEG on the standard output.
    Stdout,
    /// The device's bytes, untouched.
    Jpeg(String),
    /// Decoded and encoded again.
    Png(String),
}

/// The character in lower case, where it is a letter of ASCII.
pub open spec fn lower(c: char) -> char {
    if 'A' <= c <= 'Z' {
        (c as u8 + 32) as char
    } else {
        c
    }
}

/// Text in lower case, as far as it is ASCII.
pub open spec fn lowered(s: Seq<char>) -> Seq<char> {
    s.map_values(|c: char| lower(c))
}

/// What follows the last dot of a file name, in lower case. A dot in front of everything is part
/// of the name.
pub open spec fn extension(path: Seq<char>) -> Seq<char> {
    match path::parsed(path).file_name() {
        None => seq![],
        Some(name) => {
            let ext = text::after_last(name, '.');
            if ext.len() + 1 >= name.len() {
                seq![]
            } else {
                lowered(ext)
            }
        },
    }
}

fn extension_of(path: &str) -> (r: String)
    ensures
        r@ == extension(path@),
{
    let name = match NodePath::new(path).file_name() {
        Some(name) => name,
        None => {
            let r = String::new();
            assert(r@ =~= extension(path@));
            return r;
        },
    };
    let chars = text::chars_of(name.as_str());
    let from = text::find_last(&chars, 0, '.');
    assert(chars@.skip(0) =~= chars@);
    let ghost ext = text::after_last(name@, '.');
    assert(ext.len() == chars@.len() - from);
    let mut r = String::new();
    if from <= 1 {
        assert(r@ =~= extension(path@));
        return r;
    }
    let mut i: usize = from;
    while i < chars.len()
        invariant
            from <= i <= chars@.len(),
            r@ == lowered(chars@.subrange(from as int, i as int)),
        decreases chars@.len() - i,
    {
        let c: char = chars[i];
        if 'A' <= c && c <= 'Z' {
            r.push((c as u8 + 32) as char);
        } else {
            r.push(c);
        }
        i = i + 1;
        proof {
            let shown = chars@.subrange(from as int, i as int);
            assert(shown =~= chars@.subrange(from as int, i - 1).push(c));
            assert(r@ =~= lowered(shown));
        }
    }
    assert(chars@.subrange(from as int, chars@.len() as int) =~= ext);
    r
}

/// What a shot is written to.
#[verifier::ext_equal]
pub ghost enum TargetView {
    Stdout,
    Jpeg(Seq<char>),
    Png(Seq<char>),
}

impl View for ShotTarget {
    type V = TargetView;

    open spec fn view(&self) -> TargetView {
        match self {
            ShotTarget::Stdout => TargetView::Stdout,
            ShotTarget::Jpeg(p) => TargetView::Jpeg(p@),
            ShotTarget::Png(p) => TargetView::Png(p@),
        }
    }
}

/// What a path asks for, or why it cannot be written.
pub open spec fn target_of(path: Option<Seq<char>>, now: Option<u64>) -> Result<
    TargetView,
    Seq<char>,
> {
    match path {
        None => Ok(TargetView::Jpeg(name_at(seconds(now)))),
        Some(p) => {
            let ext = extension(p);
            if p == "-"@ {
                Ok(TargetView::Stdout)
            } else if ext == "jpg"@ || ext == "jpeg"@ {
                Ok(TargetView::Jpeg(p))
            } else if ext == "png"@ {
                Ok(TargetView::Png(p))
            } else if ext.len() == 0 {
                Err(
                    p
                        + " has no extension, so there is nothing to say which format to write. Use .jpg (the device's own bytes) or .png (decoded and re-encoded), or `-` for the JPEG on stdout."@,
                )
            } else {
                Err(
                    p + " asks for a ."@ + ext
                        + " file, and the only formats this writes are .jpg (the device's own bytes) and .png (decoded and re-encoded). `-` writes the JPEG to stdout."@,
                )
            }
        },
    }
}

impl ShotTarget {
    /// What a path asks for, or the default name. `now` is the time in seconds since the epoch, or
    /// `None` where the clock is before it.
    ///
    /// A path whose extension is neither that of a JPEG nor of a PNG is refused, before anything is
    /// opened.
    pub fn parse(path: Option<&str>, now: Option<u64>) -> (r: Result<ShotTarget, String>)
        ensures
            target_of(
                match path {
                    Some(p) => Some(p@),
                    None => None,
                },
                now,
            ) == (match r {
                Ok(t) => Ok::<TargetView, Seq<char>>(t@),
                Err(e) => Err(e@),
            }),
    {
        let path = match path {
            Some(p) => p,
            None => {
                return Ok(ShotTarget::Jpeg(default_name(now)));
            },
        };
        if text::same(path, "-") {
            return Ok(ShotTarget::Stdout);
        }
        let ext = extension_of(path);
        if text::same(ext.as_str(), "jpg") || text::same(ext.as_str(), "jpeg") {
            return Ok(ShotTarget::Jpeg(path.to_owned()));
        }
        if text::same(ext.as_str(), "png") {
            return Ok(ShotTarget::Png(path.to_owned()));
        }
        let mut e = path.to_owned();
        if ext.as_str().is_empty() {
            e.append(
                " has no extension, so there is nothing to say which format to write. Use .jpg (the device's own bytes) or .png (decoded and re-encoded), or `-` for the JPEG on stdout.",
            );
        } else {
            e.append(" asks for a .");
            e.append(ext.as_str());
            e.append(
                " file, and the only formats this writes are .jpg (the device's own bytes) and .png (decoded and re-encoded). `-` writes the JPEG to stdout.",
            );
        }
        Err(e)
    }

    /// The name on the line of success.
    pub fn label(&self) -> (s: String)
        ensures
            s@ == match self@ {
                TargetView::Stdout => "stdout"@,
                TargetView::Jpeg(p) => p,
                TargetView::Png(p) => p,
            },
    {
        match self {
            ShotTarget::Stdout => "stdout".to_owned(),
            ShotTarget::Jpeg(p) => p.clone(),
            ShotTarget::Png(p) => p.clone(),
        }
    }

    /// The bytes to write.
    pub fn contents(&self, shot: &Shot) -> (r: Result<Vec<u8>, EncodeError>)
        ensures
            match self@ {
                TargetView::Png(_) => is_png_outcome(
                    shot,
                    match r {
                        Ok(v) => Ok(v@),
                        Err(e) => Err(e),
                    },
                ),
                _ => r matches Ok(v) && v@ == shot.jpeg@,
            },
    {
        match self {
            ShotTarget::Png(_) => encode_png(shot),
            _ => {
                let mut bytes: Vec<u8> = Vec::new();
                bytes.extend_from_slice(shot.jpeg.as_slice());
                assert(bytes@ =~= shot.jpeg@);
                Ok(bytes)
            },
        }
    }
}

/// The seconds of a clock that may be before the epoch.
pub open spec fn seconds(now: Option<u64>) -> u64 {
    match now {
        Some(s) => s,
        None => 0,
    }
}

/// A number with leading zeros.
pub open spec fn padded(n: u64, width: nat) -> Seq<char> {
    text::zero_padded(text::decimal(n as nat), width)
}

/// The default name for a date and a time.
pub open spec fn name_of(c: civil::Civil) -> Seq<char> {
    "nanokvm-"@ + padded(c.year, 4) + padded(c.month, 2) + padded(c.day, 2) + "-"@ + padded(
        c.hour,
        2,
    ) + padded(c.minute, 2) + padded(c.second, 2) + ".jpg"@
}

/// The date and the time of a timestamp.
pub open spec fn civil_at(secs: u64) -> civil::Civil {
    choose|c: civil::Civil| c.is_valid() && c.timestamp() == secs
}

/// The default name at a timestamp.
pub open spec fn name_at(secs: u64) -> Seq<char> {
    name_of(civil_at(secs))
}

/// The default name: the time in UTC, so that names sort in the order in which they were given.
pub fn default_name(now: Option<u64>) -> (s: String)
    ensures
        s@ == name_at(seconds(now)),
{
    let secs: u64 = match now {
        Some(s) => s,
        None => 0,
    };
    let c = utc_parts(secs);
    proof {
        let other = civil_at(secs);
        assert(other.is_valid() && other.timestamp() == secs);
        civil::dates_are_in_the_order_of_their_timestamps(c, other);
    }
    let mut s = "nanokvm-".to_owned();
    text::push_padded(&mut s, c.year as u128, 10, 4);
    text::push_padded(&mut s, c.month as u128, 10, 2);
    text::push_padded(&mut s, c.day as u128, 10, 2);
    s.append("-");
    text::push_padded(&mut s, c.hour as u128, 10, 2);
    text::push_padded(&mut s, c.minute as u128, 10, 2);
    text::push_padded(&mut s, c.second as u128, 10, 2);
    s.append(".jpg");
    s
}

/// The part of a name that tells the time of day.
spec fn time_part(c: civil::Civil) -> Seq<char> {
    padded(c.hour, 2) + (padded(c.minute, 2) + (padded(c.second, 2) + ".jpg"@))
}

/// The part of a name behind the year.
spec fn day_part(c: civil::Civil) -> Seq<char> {
    padded(c.month, 2) + (padded(c.day, 2) + ("-"@ + time_part(c)))
}

proof fn lemma_name_parts(c: civil::Civil)
    ensures
        name_of(c) == "nanokvm-"@ + (padded(c.year, 4) + day_part(c)),
{
    let (y, m, d) = (padded(c.year, 4), padded(c.month, 2), padded(c.day, 2));
    let (h, n, s) = (padded(c.hour, 2), padded(c.minute, 2), padded(c.second, 2));
    let date = "nanokvm-"@ + y + m + d + "-"@;
    assert(name_of(c) =~= date + time_part(c));
    assert(date + time_part(c) =~= "nanokvm-"@ + (y + day_part(c)));
}

/// Two texts whose fronts are the same, or sort so, sort as their parts do.
proof fn lemma_front_decides(a: Seq<char>, b: Seq<char>, x: Seq<char>, y: Seq<char>)
    requires
        text::sorts_before(a, b) || (a == b && text::sorts_before(x, y)),
    ensures
        text::sorts_before(a + x, b + y),
{
    if text::sorts_before(a, b) {
        text::lemma_sorts_by_front(a, b, x, y);
    } else {
        text::lemma_sorts_by_back(a, x, y);
    }
}

/// Numbers of two digits.
proof fn lemma_two_digits(a: u64, b: u64)
    requires
        a < b < 100,
    ensures
        text::sorts_before(padded(a, 2), padded(b, 2)),
{
    reveal_with_fuel(text::ten_to, 3);
    text::padded_numbers_sort_as_they_count(a as nat, b as nat, 2);
}

proof fn lemma_times_sort(a: civil::Civil, b: civil::Civil)
    requires
        a.is_valid(),
        b.is_valid(),
        3600 * a.hour + 60 * a.minute + a.second < 3600 * b.hour + 60 * b.minute + b.second,
    ensures
        text::sorts_before(time_part(a), time_part(b)),
{
    let (sa, sb) = (padded(a.second, 2), padded(b.second, 2));
    let (na, nb) = (padded(a.minute, 2), padded(b.minute, 2));
    if a.hour < b.hour {
        lemma_two_digits(a.hour, b.hour);
    } else if a.minute < b.minute {
        lemma_two_digits(a.minute, b.minute);
        lemma_front_decides(na, nb, sa + ".jpg"@, sb + ".jpg"@);
    } else {
        lemma_two_digits(a.second, b.second);
        lemma_front_decides(sa, sb, ".jpg"@, ".jpg"@);
        lemma_front_decides(na, nb, sa + ".jpg"@, sb + ".jpg"@);
    }
    lemma_front_decides(
        padded(a.hour, 2),
        padded(b.hour, 2),
        na + (sa + ".jpg"@),
        nb + (sb + ".jpg"@),
    );
}

proof fn lemma_names_sort(a: civil::Civil, b: civil::Civil)
    requires
        a.is_valid(),
        b.is_valid(),
        b.year <= 9999,
        a.timestamp() < b.timestamp(),
    ensures
        text::sorts_before(name_of(a), name_of(b)),
{
    civil::dates_are_in_the_order_of_their_timestamps(a, b);
    lemma_name_parts(a);
    lemma_name_parts(b);
    let (ta, tb) = ("-"@ + time_part(a), "-"@ + time_part(b));
    let (da, db) = (padded(a.day, 2) + ta, padded(b.day, 2) + tb);
    if a.year < b.year {
        reveal_with_fuel(text::ten_to, 5);
        text::padded_numbers_sort_as_they_count(a.year as nat, b.year as nat, 4);
    } else {
        if a.month < b.month {
            lemma_two_digits(a.month, b.month);
        } else {
            if a.day < b.day {
                lemma_two_digits(a.day, b.day);
            } else {
                lemma_times_sort(a, b);
                lemma_front_decides("-"@, "-"@, time_part(a), time_part(b));
            }
            lemma_front_decides(padded(a.day, 2), padded(b.day, 2), ta, tb);
        }
        lemma_front_decides(padded(a.month, 2), padded(b.month, 2), da, db);
    }
    lemma_front_decides(padded(a.year, 4), padded(b.year, 4), day_part(a), day_part(b));
    lemma_front_decides(
        "nanokvm-"@,
        "nanokvm-"@,
        padded(a.year, 4) + day_part(a),
        padded(b.year, 4) + day_part(b),
    );
}

/// Up to the end of the year 9999, later names sort behind earlier ones.
pub proof fn later_names_sort_later(earlier: u64, later: u64)
    requires
        earlier < later <= civil::LAST_OF_9999,
    ensures
        text::sorts_before(name_at(earlier), name_at(later)),
{
    let (a, b) = (
        civil::every_timestamp_has_a_date(earlier),
        civil::every_timestamp_has_a_date(later),
    );
    assert(civil_at(earlier).is_valid() && civil_at(earlier).timestamp() == earlier);
    assert(civil_at(later).is_valid() && civil_at(later).timestamp() == later);
    civil::years_have_four_digits(civil_at(later));
    lemma_names_sort(civil_at(earlier), civil_at(later));
}

// ---- PNG -----------------------------------------------------------------------------------

/// Why a shot could not be encoded.
#[derive(Debug)]
pub enum EncodeError {
    /// The frame could not be decoded.
    Decode { width: u32, height: u32, error: DecodeError },
    /// The size cannot be written in the header of a PNG.
    Header(String),
}

impl EncodeError {
    /// The error as text.
    pub open spec fn words(&self) -> Seq<char> {
        match self {
            EncodeError::Decode { width, height, error } => "decoding the captured "@
                + decoder::size_words(*width as nat, *height as nat)
                + " frame for PNG output: "@ + error.words(),
            EncodeError::Header(what) => "writing the PNG header: "@ + what@,
        }
    }

    /// The error as text.
    pub fn text(&self) -> (s: String)
        ensures
            s@ == self.words(),
    {
        match self {
            EncodeError::Decode { width, height, error } => {
                let mut s = "decoding the captured ".to_owned();
                push_size(&mut s, *width, *height);
                s.append(" frame for PNG output: ");
                s.append(error.text().as_str());
                s
            },
            EncodeError::Header(what) => "writing the PNG header: ".to_owned().concat(
                what.as_str(),
            ),
        }
    }
}

/// The file that the png crate writes for these pixels, as eight-bit RGBA with its other settings
/// left alone.
pub uninterp spec fn png_file(width: u32, height: u32, rgba: Seq<u8>) -> Seq<u8>;

/// Whether a file starts as a PNG of this size does: with the signature and a header for eight-bit
/// RGBA.
pub open spec fn has_png_header(file: Seq<u8>, width: u32, height: u32) -> bool {
    &&& file.len() >= 33
    &&& file.take(8) == seq![137u8, 80, 78, 71, 13, 10, 26, 10]
    &&& width == file[16] * 0x100_0000 + file[17] * 0x1_0000 + file[18] * 0x100 + file[19]
    &&& height == file[20] * 0x100_0000 + file[21] * 0x1_0000 + file[22] * 0x100 + file[23]
    &&& file[24] == 8
    &&& file[25] == 6
}

/// `png::Encoder::new`, `write_header`, `write_image_data` and `finish`, into memory.
///
/// The result is named, and it starts with the header of an image of this size. Writing to memory
/// does not fail, and the pixels are as many as the size asks for, so the only refusal is that of
/// an empty size.
#[verifier::external_body]
fn png_encode(width: u32, height: u32, rgba: &Vec<u8>) -> (r: Result<Vec<u8>, String>)
    requires
        rgba@.len() == width * height * 4,
        capture::in_range(width, height),
    ensures
        match r {
            Ok(file) => width > 0 && height > 0 && file@ == png_file(width, height, rgba@)
                && has_png_header(file@, width, height),
            Err(e) => (width == 0 && e@ == "Zero width not allowed"@) || (width > 0 && height == 0
                && e@ == "Zero height not allowed"@),
        },
{
    let mut file = Vec::new();
    let mut encoder = png::Encoder::new(&mut file, width, height);
    encoder.set_color(png::ColorType::Rgba);
    encoder.set_depth(png::BitDepth::Eight);
    let mut writer = encoder.write_header().map_err(|e| e.to_string())?;
    writer.write_image_data(rgba).map_err(|e| e.to_string())?;
    writer.finish().map_err(|e| e.to_string())?;
    Ok(file)
}

/// Whether a shot can be encoded to `outcome`: to the file for some pixels that its frame decodes
/// to, or to an error that decoding it can end in.
pub open spec fn is_png_outcome(shot: &Shot, outcome: Result<Seq<u8>, EncodeError>) -> bool {
    match decoder::size_refusal(shot.width, shot.height) {
        Some(e) => outcome matches Err(EncodeError::Decode { width, height, error }) && width
            == shot.width && height == shot.height && error == e,
        None => match decoder::headers_of(shot.jpeg@, decoder::standard()) {
            Err(what) => outcome matches Err(EncodeError::Decode { width, height, error }) && width
                == shot.width && height == shot.height && error is Jpeg && error->Jpeg_0@ == what,
            Ok((dimensions, size)) => match decoder::header_refusal(
                shot.width,
                shot.height,
                dimensions,
                size,
            ) {
                Some(e) => outcome matches Err(EncodeError::Decode { width, height, error })
                    && width == shot.width && height == shot.height && error == e,
                None => if !layout::returns_on(shot.jpeg@) {
                    outcome matches Err(EncodeError::Decode { width, height, error }) && width
                        == shot.width && height == shot.height && error
                        == DecodeError::UnsupportedLayout
                } else {
                    match outcome {
                        Ok(file) => shot.width > 0 && shot.height > 0 && has_png_header(
                            file,
                            shot.width,
                            shot.height,
                        ) && exists|pixels: Seq<u8>|
                            #![trigger png_file(shot.width, shot.height, pixels)]
                            file == png_file(shot.width, shot.height, pixels) && decodes_to(
                                shot,
                                pixels,
                            ),
                        Err(EncodeError::Decode { width, height, error }) => width == shot.width
                            && height == shot.height && error is Jpeg && decoder::may_decode(
                            shot.jpeg@,
                            decoder::standard(),
                            (shot.width * shot.height * 4) as nat,
                            Err(error->Jpeg_0@),
                        ),
                        Err(EncodeError::Header(what)) => (shot.width == 0 || shot.height == 0)
                            && what@ == if shot.width == 0 {
                            "Zero width not allowed"@
                        } else {
                            "Zero height not allowed"@
                        },
                    }
                },
            },
        },
    }
}

/// Whether the frame of a shot can decode to these pixels.
pub open spec fn decodes_to(shot: &Shot, pixels: Seq<u8>) -> bool {
    pixels.len() == shot.width * shot.height * 4 && decoder::may_decode(
        shot.jpeg@,
        decoder::standard(),
        (shot.width * shot.height * 4) as nat,
        Ok(pixels),
    )
}

/// Encodes the pixels that a frame was decoded to.
pub fn encode_pixels(decoded: &DecodedFrame) -> (r: Result<Vec<u8>, EncodeError>)
    requires
        decoded.well_formed(),
        capture::in_range(decoded.width, decoded.height),
    ensures
        match r {
            Ok(file) => decoded.width > 0 && decoded.height > 0 && file@ == png_file(
                decoded.width,
                decoded.height,
                decoded.rgba@,
            ) && has_png_header(file@, decoded.width, decoded.height),
            Err(e) => e is Header && (decoded.width == 0 || decoded.height == 0) && e->Header_0@
                == if decoded.width == 0 {
                "Zero width not allowed"@
            } else {
                "Zero height not allowed"@
            },
        },
{
    match png_encode(decoded.width, decoded.height, &decoded.rgba) {
        Ok(file) => Ok(file),
        Err(what) => Err(EncodeError::Header(what)),
    }
}

/// Decodes the shot and encodes it as eight-bit RGBA PNG. A frame that the decoder refuses here is
/// one that it refuses everywhere.
pub fn encode_png(shot: &Shot) -> (r: Result<Vec<u8>, EncodeError>)
    ensures
        is_png_outcome(
            shot,
            match r {
                Ok(v) => Ok(v@),
                Err(e) => Err(e),
            },
        ),
{
    let mut bytes: Vec<u8> = Vec::new();
    bytes.extend_from_slice(shot.jpeg.as_slice());
    assert(bytes@ =~= shot.jpeg@);
    let frame = CompressedFrame {
        jpeg: bytes,
        width: shot.width,
        height: shot.height,
        captured_at: 0,
        sequence: 0,
    };
    let mut decoded = DecodedFrame::empty();
    let mut decoder = Decoder::new();
    match decoder.decode(&frame, &mut decoded) {
        Ok(()) => {
            assert(decodes_to(shot, decoded.rgba@));
            encode_pixels(&decoded)
        },
        Err(error) => Err(
            EncodeError::Decode { width: shot.width, height: shot.height, error },
        ),
    }
}

// ---- writing -------------------------------------------------------------------------------

/// The file that a shot is written to before it is renamed: in the same directory, hidden, and
/// with the number of the process in its name, so that two shots of one name do not share it.
pub open spec fn temporary_path(path: path::PathView, pid: u32) -> Option<path::PathView> {
    match path.file_name() {
        Some(name) => {
            let hidden = "."@ + name + "."@ + text::decimal(pid as nat) + ".tmp"@;
            let dir = match path.parent() {
                Some(d) => if d.is_nothing() {
                    path::parsed("."@)
                } else {
                    d
                },
                None => path::parsed("."@),
            };
            Some(dir.child(hidden))
        },
        None => None,
    }
}

/// The file that a shot is written to before it is renamed, or why the path cannot be written.
pub fn temporary_for(path: &str, pid: u32) -> (r: Result<NodePath, String>)
    ensures
        match r {
            Ok(p) => temporary_path(path::parsed(path@), pid) == Some(p@) && p.words() == p@.text(),
            Err(e) => temporary_path(path::parsed(path@), pid) is None && e@ == path@
                + " does not name a file to write"@,
        },
{
    let whole = NodePath::new(path);
    let name = match whole.file_name() {
        Some(name) => name,
        None => {
            let mut e = path.to_owned();
            e.append(" does not name a file to write");
            return Err(e);
        },
    };
    let mut hidden = ".".to_owned();
    hidden.append(name.as_str());
    hidden.append(".");
    text::push_decimal(&mut hidden, pid as u128);
    hidden.append(".tmp");
    let dir = match whole.parent() {
        Some(d) => if d.is_nothing() {
            NodePath::new(".")
        } else {
            d
        },
        None => NodePath::new("."),
    };
    Ok(dir.child(hidden.as_str()))
}

/// What failed to be written, as text.
pub fn write_context(path: &str, temporary: &str) -> (s: String)
    ensures
        s@ == "writing "@ + path@ + " (via the temporary "@ + temporary@ + ")"@,
{
    let mut s = "writing ".to_owned();
    s.append(path);
    s.append(" (via the temporary ");
    s.append(temporary);
    s.append(")");
    s
}

/// The line of success.
pub open spec fn summary(target: Seq<char>, bytes: nat, shot: &Shot) -> Seq<char> {
    "wrote "@ + target + ": "@ + decoder::size_words(shot.width as nat, shot.height as nat) + ", "@
        + text::decimal(bytes) + " bytes, skipped "@ + text::decimal(shot.skipped as nat)
        + " frames, "@ + text::decimal(shot.mismatched as nat) + " at another size"@ + (
    if shot.discarded == 0 {
        seq![]
    } else {
        ", "@ + text::decimal(shot.discarded as nat) + " refused by the source"@
    }) + (if shot.restarted {
        ", stream restarted once"@
    } else {
        seq![]
    })
}

/// The line of success. Its numbers are the only account of what the policy did.
pub fn summary_line(target: &str, bytes: usize, shot: &Shot) -> (s: String)
    ensures
        s@ == summary(target@, bytes as nat, shot),
{
    let mut s = "wrote ".to_owned();
    s.append(target);
    s.append(": ");
    push_size(&mut s, shot.width, shot.height);
    s.append(", ");
    text::push_decimal(&mut s, bytes as u128);
    s.append(" bytes, skipped ");
    text::push_decimal(&mut s, shot.skipped as u128);
    s.append(" frames, ");
    text::push_decimal(&mut s, shot.mismatched as u128);
    s.append(" at another size");
    if shot.discarded != 0 {
        s.append(", ");
        text::push_decimal(&mut s, shot.discarded as u128);
        s.append(" refused by the source");
    }
    if shot.restarted {
        s.append(", stream restarted once");
    }
    assert(s@ =~= summary(target@, bytes as nat, shot));
    s
}

/// The time limit as a length of time, unless it is too long.
pub open spec fn limit_of(secs: u64) -> Option<Nanos> {
    if secs <= MAX_TIMEOUT_SECS {
        Some((secs * 1_000_000_000) as Nanos)
    } else {
        None
    }
}

/// The time limit as a length of time, or why it is refused. It is looked at before anything is
/// opened.
pub fn wait_limit(secs: u64) -> (r: Result<Nanos, String>)
    ensures
        match r {
            Ok(t) => secs <= MAX_TIMEOUT_SECS && t == secs * 1_000_000_000,
            Err(e) => secs > MAX_TIMEOUT_SECS && e@ == "--timeout "@ + text::decimal(secs as nat)
                + " is more than the "@ + text::decimal(MAX_TIMEOUT_SECS as nat)
                + " second maximum. A shot waits for one frame; anything that needs longer is a stream, not a screenshot."@,
        },
        r is Ok <==> limit_of(secs) is Some,
        r matches Ok(t) ==> t == limit_of(secs)->0,
{
    if secs > MAX_TIMEOUT_SECS {
        let mut e = "--timeout ".to_owned();
        text::push_decimal(&mut e, secs as u128);
        e.append(" is more than the ");
        text::push_decimal(&mut e, MAX_TIMEOUT_SECS as u128);
        e.append(
            " second maximum. A shot waits for one frame; anything that needs longer is a stream, not a screenshot.",
        );
        return Err(e);
    }
    Ok(secs as u128 * 1_000_000_000)
}

} // verus!
