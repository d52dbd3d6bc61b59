//! The capture and decode state machines.
//!
//! Two threads run them: one takes frames from a source, the other decodes them. Each handoff is
//! a [`Slot`], so it carries at most one pending frame. The threads, the clock and the calls into
//! the source belong to the caller; what is decided, counted and reported stands here.
//!
//! The capture thread survives everything. A stall is answered with a restart of the stream on
//! the same device, a disconnection with a reopening on a doubling backoff, and frames in a mode
//! that was not negotiated with the bounded ladder of [`FormatWatch`].

use vstd::prelude::*;

use super::decoder;
use super::handoff::SlotView;
use super::v4l2::BytesUsedStats;
use super::{
    CaptureError, CompressedFrame, DecodeError, DecodedFrame, FrameSource, Slot, SourceOpener,
};
use crate::clock;
use crate::clock::{Nanos, MILLISECOND, SECOND};
use crate::count;
use crate::text;

verus! {

/// How the pipeline is doing. Only what is known: the hardware cannot tell a lost signal.
#[derive(Debug, Clone, Copy, PartialEq, Eq, Structural)]
pub enum PipelineState {
    /// Frames are arriving.
    Running,
    /// No frame has arrived for a while.
    Stalled,
    /// The device is gone, and it is not being reopened.
    Disconnected,
    /// The device is being reopened.
    Reconnecting,
    /// The pipeline was stopped, or its threads could not be started.
    Stopped,
}

/// How long the capture thread sleeps after an error that may pass.
pub const BACKOFF: Nanos = 20_000_000;

/// How long it sleeps once such errors have come in a row.
pub const BACKOFF_SLOW: Nanos = 100_000_000;

/// After how many errors in a row the sleep gets longer.
pub const BACKOFF_ESCALATE_AFTER: u32 = 10;

/// How often a waiting capture thread looks whether it is to stop.
pub const STOP_POLL: Nanos = 2_000_000;

/// The settings of a pipeline.
#[derive(Debug, Clone, Copy, PartialEq, Eq, Structural)]
pub struct PipelineConfig {
    /// How long without a frame before the state is [`PipelineState::Stalled`].
    pub stall_after: Nanos,
    /// How long the decode thread waits for a frame before it looks whether it is to stop.
    pub decode_wait: Nanos,
    /// A delay before each decode, which makes the decoder slower than the source.
    pub decode_delay: Option<Nanos>,
    /// How long without a frame before the stream is restarted, and restarted again.
    pub restart_after: Option<Nanos>,
    /// The first wait before a reopening.
    pub reopen_backoff: Nanos,
    /// The longest wait before a reopening.
    pub reopen_max_backoff: Nanos,
    /// How long frames may arrive in another size than the negotiated one, `None` for ever.
    pub format_mismatch_grace: Option<Nanos>,
    /// How many such frames in a row it takes besides. More than the eight frames at the previous
    /// size that the device emits after an idle period.
    pub format_mismatch_frames: u32,
    /// How many restarts of the stream are tried against such frames.
    pub format_mismatch_restart_limit: u32,
}

impl Default for PipelineConfig {
    fn default() -> (r: PipelineConfig)
        ensures
            r.stall_after == 500 * MILLISECOND,
            r.decode_wait == 100 * MILLISECOND,
            r.decode_delay is None,
            r.restart_after == Some((2 * SECOND) as Nanos),
            r.reopen_backoff == 500 * MILLISECOND,
            r.reopen_max_backoff == 5 * SECOND,
            r.format_mismatch_grace == Some((500 * MILLISECOND) as Nanos),
            r.format_mismatch_frames == 12,
            r.format_mismatch_restart_limit == 3,
    {
        PipelineConfig {
            stall_after: 500 * MILLISECOND,
            decode_wait: 100 * MILLISECOND,
            decode_delay: None,
            restart_after: Some(2 * SECOND),
            reopen_backoff: 500 * MILLISECOND,
            reopen_max_backoff: 5 * SECOND,
            format_mismatch_grace: Some(500 * MILLISECOND),
            format_mismatch_frames: 12,
            format_mismatch_restart_limit: 3,
        }
    }
}

/// The counters of a pipeline.
#[derive(Debug, Clone, Copy, PartialEq, Eq)]
pub struct Counters {
    /// Frames taken from the source.
    pub frames_captured: u64,
    /// Frames decoded.
    pub frames_decoded: u64,
    /// Compressed frames displaced before they were decoded: the decoder is behind.
    pub dropped_pre_decode: u64,
    /// Decoded frames displaced before they were shown: the renderer is behind.
    pub dropped_post_decode: u64,
    /// Frames that did not decode.
    pub decode_errors: u64,
    /// Capture errors other than disconnections.
    pub capture_errors: u64,
    /// When the latest frame was taken.
    pub last_frame_at: Option<Nanos>,
    /// The latest frame's own time stamp.
    pub last_captured_at: Option<Nanos>,
    /// The sizes of the compressed frames.
    pub bytes: BytesUsedStats,
    /// The same since the window was last taken.
    pub bytes_window: BytesUsedStats,
    pub last_sequence: Option<u32>,
    /// Times the device was lost.
    pub disconnects: u64,
    /// Times it was opened again.
    pub reopens: u64,
    /// Openings that were tried while recovering.
    pub reopen_attempts: u64,
    /// Restarts of the stream for a stall.
    pub stream_restarts: u64,
    /// Frames of another size than the frame before.
    pub resolution_changes: u64,
    /// The size of the latest frame.
    pub last_resolution: Option<(u32, u32)>,
    /// Restarts of the stream for frames of the wrong size.
    pub format_mismatch_restarts: u64,
    /// Reopenings for frames of the wrong size.
    pub format_mismatch_reopens: u64,
    /// Times a wrong size was accepted in the end.
    pub format_mismatch_accepted: u64,
    /// What the source negotiated, where there is one that did.
    pub negotiated_dimensions: Option<(u32, u32)>,
    /// Since when the device is gone.
    pub disconnected_since: Option<Nanos>,
    /// The state, without the passing of time.
    pub state: PipelineState,
}

impl Counters {
    /// Whether every counter can still count one more of what it counts.
    pub open spec fn has_room(&self) -> bool {
        &&& self.frames_captured < u64::MAX
        &&& self.frames_decoded < u64::MAX
        &&& self.dropped_pre_decode < u64::MAX
        &&& self.dropped_post_decode < u64::MAX
        &&& self.decode_errors < u64::MAX
        &&& self.capture_errors < u64::MAX
        &&& self.bytes.has_room()
        &&& self.bytes_window.has_room()
        &&& self.disconnects < u64::MAX
        &&& self.reopens < u64::MAX
        &&& self.reopen_attempts < u64::MAX
        &&& self.stream_restarts < u64::MAX
        &&& self.resolution_changes < u64::MAX
        &&& self.format_mismatch_restarts < u64::MAX
        &&& self.format_mismatch_reopens < u64::MAX
        &&& self.format_mismatch_accepted < u64::MAX
    }

    /// The counters after a frame of `len` bytes was taken. The first frame is no change of size.
    pub open spec fn with_frame(self, frame: CompressedFrame, len: u32, now: Nanos) -> Counters {
        let dims = (frame.width, frame.height);
        Counters {
            frames_captured: (self.frames_captured + 1) as u64,
            last_frame_at: Some(now),
            last_captured_at: Some(frame.captured_at),
            last_sequence: Some(frame.sequence),
            bytes: self.bytes.recorded(len),
            bytes_window: self.bytes_window.recorded(len),
            last_resolution: Some(dims),
            resolution_changes: match self.last_resolution {
                Some(previous) => if previous != dims {
                    (self.resolution_changes + 1) as u64
                } else {
                    self.resolution_changes
                },
                None => self.resolution_changes,
            },
            ..self
        }
    }

    /// The counters after the format watch came to `verdict`.
    pub open spec fn with_verdict(self, verdict: FormatVerdict) -> Counters {
        match verdict {
            FormatVerdict::Fine => self,
            FormatVerdict::Restart => Counters {
                format_mismatch_restarts: (self.format_mismatch_restarts + 1) as u64,
                ..self
            },
            FormatVerdict::Reopen => Counters {
                format_mismatch_reopens: (self.format_mismatch_reopens + 1) as u64,
                ..self
            },
            FormatVerdict::Accept => Counters {
                format_mismatch_accepted: (self.format_mismatch_accepted + 1) as u64,
                ..self
            },
        }
    }

    /// Counts a frame.
    fn count_frame(&mut self, frame: &CompressedFrame, now: Nanos)
        requires
            old(self).has_room(),
        ensures
            *final(self) == old(self).with_frame(*frame, frame_len(*frame), now),
    {
        self.frames_captured = self.frames_captured + 1;
        self.last_frame_at = Some(now);
        self.last_captured_at = Some(frame.captured_at);
        self.last_sequence = Some(frame.sequence);
        let len: u32 = if frame.jpeg.len() <= 0xffff_ffff {
            frame.jpeg.len() as u32
        } else {
            0xffff_ffff
        };
        self.bytes.record(len);
        self.bytes_window.record(len);
        if let Some((w, h)) = self.last_resolution {
            if w != frame.width || h != frame.height {
                self.resolution_changes = self.resolution_changes + 1;
            }
        }
        self.last_resolution = Some((frame.width, frame.height));
    }

    /// Counts what the format watch decided.
    fn count_verdict(&mut self, verdict: FormatVerdict)
        requires
            old(self).format_mismatch_restarts < u64::MAX,
            old(self).format_mismatch_reopens < u64::MAX,
            old(self).format_mismatch_accepted < u64::MAX,
        ensures
            *final(self) == old(self).with_verdict(verdict),
    {
        match verdict {
            FormatVerdict::Fine => {},
            FormatVerdict::Restart => {
                self.format_mismatch_restarts = self.format_mismatch_restarts + 1;
            },
            FormatVerdict::Reopen => {
                self.format_mismatch_reopens = self.format_mismatch_reopens + 1;
            },
            FormatVerdict::Accept => {
                self.format_mismatch_accepted = self.format_mismatch_accepted + 1;
            },
        }
    }
}

/// The size of a compressed frame, as far as the statistics can tell it.
pub open spec fn frame_len(frame: CompressedFrame) -> u32 {
    if frame.jpeg@.len() <= u32::MAX {
        frame.jpeg@.len() as u32
    } else {
        u32::MAX
    }
}

/// A snapshot of a pipeline.
#[derive(Debug)]
pub struct PipelineStats {
    /// The counters. Their state is the state at the moment of the snapshot.
    pub counters: Counters,
    /// What last went wrong, until the device was opened again.
    pub last_error: Option<String>,
}

/// What both threads and the owner of a pipeline share.
#[derive(Debug)]
pub struct Shared {
    pub counters: Counters,
    pub last_error: Option<String>,
    pub started_at: Nanos,
    /// Whether the pipeline is to stop.
    pub stopping: bool,
    pub stall_after: Nanos,
}

/// A message that may be missing, as text.
pub open spec fn words_of(message: Option<String>) -> Option<Seq<char>> {
    match message {
        Some(s) => Some(s@),
        None => None,
    }
}

impl Shared {
    /// The state at `now`: a running pipeline counts as stalled once no frame has come for long
    /// enough. No thread has to notice that.
    pub open spec fn state_at(&self, now: Nanos) -> PipelineState {
        let since = match self.counters.last_frame_at {
            Some(t) => t,
            None => self.started_at,
        };
        if self.counters.state == PipelineState::Running && clock::since(now, since)
            >= self.stall_after {
            PipelineState::Stalled
        } else {
            self.counters.state
        }
    }

    /// Nothing but the counters and the message differs from `other`.
    pub open spec fn same_setting(&self, other: Shared) -> bool {
        self.started_at == other.started_at && self.stopping == other.stopping
            && self.stall_after == other.stall_after
    }

    /// Whether nothing is missing while the pipeline runs. A stall is read off the clock and never
    /// noted.
    pub open spec fn settled(&self) -> bool {
        &&& self.counters.state != PipelineState::Stalled
        &&& self.counters.state == PipelineState::Running
            ==> self.counters.disconnected_since is None
    }

    /// What every step of the pipeline keeps: nothing is missing while it runs, and an error that
    /// was recorded stays recorded, it or a later one, until the device is `reopened`.
    pub open spec fn keeps(&self, before: Shared, reopened: bool) -> bool {
        &&& before.settled() ==> self.settled()
        &&& before.last_error is Some && !reopened ==> self.last_error is Some
    }

    /// The state of a pipeline that starts at `now`.
    pub fn new(stall_after: Nanos, now: Nanos) -> (s: Shared)
        ensures
            s.settled(),
            s.counters.has_room(),
            s.counters.frames_captured == 0,
            s.counters.frames_decoded == 0,
            s.counters.dropped_pre_decode == 0,
            s.counters.dropped_post_decode == 0,
            s.counters.decode_errors == 0,
            s.counters.capture_errors == 0,
            s.counters.last_frame_at is None,
            s.counters.last_captured_at is None,
            s.counters.bytes.count == 0,
            s.counters.bytes.well_formed(),
            s.counters.bytes_window == s.counters.bytes,
            s.counters.last_sequence is None,
            s.counters.disconnects == 0,
            s.counters.reopens == 0,
            s.counters.reopen_attempts == 0,
            s.counters.stream_restarts == 0,
            s.counters.resolution_changes == 0,
            s.counters.last_resolution is None,
            s.counters.format_mismatch_restarts == 0,
            s.counters.format_mismatch_reopens == 0,
            s.counters.format_mismatch_accepted == 0,
            s.counters.negotiated_dimensions is None,
            s.counters.disconnected_since is None,
            s.counters.state == PipelineState::Running,
            s.last_error is None,
            s.started_at == now,
            !s.stopping,
            s.stall_after == stall_after,
    {
        Shared {
            counters: Counters {
                frames_captured: 0,
                frames_decoded: 0,
                dropped_pre_decode: 0,
                dropped_post_decode: 0,
                decode_errors: 0,
                capture_errors: 0,
                last_frame_at: None,
                last_captured_at: None,
                bytes: BytesUsedStats::default(),
                bytes_window: BytesUsedStats::default(),
                last_sequence: None,
                disconnects: 0,
                reopens: 0,
                reopen_attempts: 0,
                stream_restarts: 0,
                resolution_changes: 0,
                last_resolution: None,
                format_mismatch_restarts: 0,
                format_mismatch_reopens: 0,
                format_mismatch_accepted: 0,
                negotiated_dimensions: None,
                disconnected_since: None,
                state: PipelineState::Running,
            },
            last_error: None,
            started_at: now,
            stopping: false,
            stall_after,
        }
    }

    /// The state at `now`.
    pub fn state(&self, now: Nanos) -> (r: PipelineState)
        ensures
            r == self.state_at(now),
    {
        match self.counters.state {
            PipelineState::Running => {
                let since: Nanos = match self.counters.last_frame_at {
                    Some(t) => t,
                    None => self.started_at,
                };
                if clock::elapsed(now, since) >= self.stall_after {
                    PipelineState::Stalled
                } else {
                    PipelineState::Running
                }
            },
            other => other,
        }
    }

    /// A snapshot in which every field describes the same moment.
    pub fn stats(&self, now: Nanos) -> (r: PipelineStats)
        ensures
            r.counters == (Counters { state: self.state_at(now), ..self.counters }),
            r.last_error == self.last_error,
    {
        let mut counters = self.counters;
        counters.state = self.state(now);
        PipelineStats { counters, last_error: self.last_error.clone() }
    }

    /// Takes the sizes of the frames since the last call, and starts over.
    pub fn take_bytes_window(&mut self) -> (r: BytesUsedStats)
        ensures
            r == old(self).counters.bytes_window,
            *final(self) == (Shared {
                counters: Counters {
                    bytes_window: final(self).counters.bytes_window,
                    ..old(self).counters
                },
                ..*old(self)
            }),
            final(self).counters.bytes_window == (BytesUsedStats {
                count: 0,
                min: 0,
                max: 0,
                total: 0,
                last: 0,
            }),
    {
        let r = self.counters.bytes_window;
        self.counters.bytes_window = BytesUsedStats::default();
        r
    }

    /// How long ago the latest frame was taken, or `None` before the first.
    pub fn frames_stalled_for(&self, now: Nanos) -> (r: Option<Nanos>)
        ensures
            r == (match self.counters.last_frame_at {
                Some(t) => Some(clock::since(now, t)),
                None => None,
            }),
    {
        match self.counters.last_frame_at {
            Some(t) => Some(clock::elapsed(now, t)),
            None => None,
        }
    }

    /// Notes that the threads could not be started, with the reason of the one that failed; the
    /// decode thread's comes first where both did.
    pub fn spawn_failed(&mut self, capture: Option<String>, decode: Option<String>)
        ensures
            final(self).stopping,
            final(self).counters == (Counters {
                state: PipelineState::Stopped,
                ..old(self).counters
            }),
            words_of(final(self).last_error) == Some(
                match (capture, decode) {
                    (_, Some(e)) => "failed to spawn nanokvm-decode: "@ + e@,
                    (Some(e), None) => "failed to spawn nanokvm-capture: "@ + e@,
                    (None, None) => "failed to start pipeline threads"@,
                },
            ),
            final(self).started_at == old(self).started_at,
            final(self).stall_after == old(self).stall_after,
            final(self).keeps(*old(self), false),
    {
        let msg = match (capture, decode) {
            (_, Some(e)) => "failed to spawn nanokvm-decode: ".to_owned().concat(e.as_str()),
            (Some(e), None) => "failed to spawn nanokvm-capture: ".to_owned().concat(e.as_str()),
            (None, None) => "failed to start pipeline threads".to_owned(),
        };
        self.counters.state = PipelineState::Stopped;
        self.last_error = Some(msg);
        self.stopping = true;
    }

    /// Notes that a thread of the pipeline ended in a panic.
    pub fn thread_panicked(&mut self, name: &str)
        ensures
            words_of(final(self).last_error) == Some(name@ + " thread panicked"@),
            final(self).counters == old(self).counters,
            final(self).same_setting(*old(self)),
            final(self).keeps(*old(self), false),
    {
        self.last_error = Some(name.to_owned().concat(" thread panicked"));
    }

    /// Notes that the pipeline was stopped.
    pub fn stopped(&mut self)
        ensures
            final(self).counters == (Counters {
                state: PipelineState::Stopped,
                ..old(self).counters
            }),
            final(self).last_error == old(self).last_error,
            final(self).same_setting(*old(self)),
            final(self).keeps(*old(self), false),
    {
        self.counters.state = PipelineState::Stopped;
    }
}

/// A pipeline that says it runs, or that it runs and no frames come, has no time of loss to show.
pub proof fn what_runs_is_not_lost(shared: Shared, now: Nanos)
    requires
        shared.settled(),
        shared.state_at(now) == PipelineState::Running || shared.state_at(now)
            == PipelineState::Stalled,
    ensures
        shared.counters.disconnected_since is None,
{
}

/// A cheap identity of an error, by which a repetition is recognised without wording it.
pub open spec fn kind_of(e: CaptureError) -> (u8, i32) {
    match e {
        CaptureError::Disconnected => (0, 0),
        CaptureError::Timeout(_) => (1, 0),
        CaptureError::BadFrame(_) => (2, 0),
        CaptureError::Io(io) => (
            3,
            match io.errno {
                Some(n) => n,
                None => 0,
            },
        ),
        CaptureError::Config(_) => (4, 0),
    }
}

/// The identity of an error.
pub fn error_kind(e: &CaptureError) -> (r: (u8, i32))
    ensures
        r == kind_of(*e),
{
    match e {
        CaptureError::Disconnected => (0, 0),
        CaptureError::Timeout(_) => (1, 0),
        CaptureError::BadFrame(_) => (2, 0),
        CaptureError::Io(io) => (
            3,
            match io.errno {
                Some(n) => n,
                None => 0,
            },
        ),
        CaptureError::Config(_) => (4, 0),
    }
}

/// What the format watch decides on a frame.
#[derive(Debug, Clone, Copy, PartialEq, Eq, Structural)]
pub enum FormatVerdict {
    /// Nothing to do.
    Fine,
    /// Restart the stream, which commits the format again.
    Restart,
    /// Open the device again: the restarts did not help.
    Reopen,
    /// Nothing helped. What the device sends is what there is.
    Accept,
}

/// Watches whether the device is in the mode that was negotiated.
///
/// A frame's size is what its header says, and nothing here changes that. Where frames of
/// another size keep coming, for long enough and for enough frames in a row, the stream is
/// restarted, up to a limit and with a wait that doubles; then the device is reopened, once; and
/// then the size is accepted. Only a frame of the negotiated size starts the ladder over.
#[derive(Debug, Clone, Copy, PartialEq, Eq)]
pub struct FormatWatch {
    /// How long wrong frames are put up with, or `None` where nothing is watched.
    pub grace: Option<Nanos>,
    /// How many wrong frames in a row are put up with.
    pub min_frames: u32,
    /// How many restarts one opening of the device gets.
    pub restart_limit: u32,
    /// Whether there is a device to reopen.
    pub recover: bool,
    /// What the source negotiated, if anything.
    pub negotiated: Option<(u32, u32)>,
    /// When the current run of wrong frames began.
    pub mismatch_since: Option<Nanos>,
    /// How many frames the run has.
    pub mismatch_frames: u32,
    /// Restarts that were spent.
    pub restarts: u32,
    /// Whether this run has had its reopening.
    pub reopened: bool,
    /// Whether the reopening that this watch asked for is under way.
    pub escalating: bool,
    /// Whether the wrong size was accepted.
    pub accepted: bool,
}

/// How many graces the next restart waits for after `restarts` of them.
pub open spec fn grace_factor(restarts: u32) -> nat {
    if restarts < 32 {
        clock::doublings(restarts as nat)
    } else {
        u32::MAX as nat
    }
}

/// The factor above, as a number.
fn grace_factor_of(restarts: u32) -> (r: u32)
    ensures
        r == grace_factor(restarts),
{
    if restarts < 32 {
        clock::power_of_two(restarts)
    } else {
        0xffff_ffff
    }
}

impl FormatWatch {
    /// The budget is never overdrawn.
    pub open spec fn well_formed(&self) -> bool {
        self.restarts <= self.restart_limit
    }

    /// A watch of no device yet.
    pub open spec fn idle(config: PipelineConfig, recover: bool) -> FormatWatch {
        FormatWatch {
            grace: config.format_mismatch_grace,
            min_frames: config.format_mismatch_frames,
            restart_limit: config.format_mismatch_restart_limit,
            recover,
            negotiated: None,
            mismatch_since: None,
            mismatch_frames: 0,
            restarts: 0,
            reopened: false,
            escalating: false,
            accepted: false,
        }
    }

    /// The watch of a device that was just opened: a clean run and a full budget. Only the
    /// reopening that the watch itself asked for keeps counting against the run.
    pub open spec fn armed(self, negotiated: Option<(u32, u32)>) -> FormatWatch {
        FormatWatch {
            negotiated,
            mismatch_since: None,
            mismatch_frames: 0,
            restarts: 0,
            accepted: false,
            reopened: self.reopened && self.escalating,
            escalating: false,
            ..self
        }
    }

    /// The watch after a frame of the negotiated size.
    pub open spec fn cleared(self) -> FormatWatch {
        FormatWatch {
            mismatch_since: None,
            mismatch_frames: 0,
            restarts: 0,
            reopened: false,
            accepted: false,
            ..self
        }
    }

    /// The watch with one more frame in the run of wrong ones.
    pub open spec fn counted(self, now: Nanos) -> FormatWatch {
        FormatWatch {
            mismatch_frames: count::one_more(self.mismatch_frames),
            mismatch_since: match self.mismatch_since {
                Some(t) => Some(t),
                None => Some(now),
            },
            ..self
        }
    }

    /// How long the run of wrong frames has lasted.
    pub open spec fn waited(self, now: Nanos) -> Nanos {
        match self.mismatch_since {
            Some(t) => clock::since(now, t),
            None => 0,
        }
    }

    /// Whether a run has come far enough to be acted on: enough frames, and enough time.
    pub open spec fn run_is_due(self, grace: Nanos, now: Nanos) -> bool {
        self.mismatch_frames >= self.min_frames && self.waited(now) >= grace
    }

    /// What a frame of size `dims` at `now` leads to.
    pub open spec fn watched(self, dims: (u32, u32), now: Nanos) -> (FormatWatch, FormatVerdict) {
        match (self.grace, self.negotiated) {
            (Some(grace), Some(negotiated)) => if dims == negotiated {
                (self.cleared(), FormatVerdict::Fine)
            } else if self.accepted {
                (self, FormatVerdict::Fine)
            } else {
                let run = self.counted(now);
                if !run.run_is_due(grace, now) {
                    (run, FormatVerdict::Fine)
                } else if run.restarts >= run.restart_limit {
                    if run.recover && !run.reopened {
                        (
                            FormatWatch { reopened: true, escalating: true, ..run },
                            FormatVerdict::Reopen,
                        )
                    } else {
                        (FormatWatch { accepted: true, ..run }, FormatVerdict::Accept)
                    }
                } else if run.waited(now) < clock::product(grace, grace_factor(run.restarts)) {
                    (run, FormatVerdict::Fine)
                } else {
                    (
                        FormatWatch {
                            restarts: (run.restarts + 1) as u32,
                            mismatch_since: None,
                            mismatch_frames: 0,
                            ..run
                        },
                        FormatVerdict::Restart,
                    )
                }
            },
            _ => (self, FormatVerdict::Fine),
        }
    }

    /// A watch of no device yet.
    pub fn new(config: &PipelineConfig, recover: bool) -> (w: FormatWatch)
        ensures
            w == FormatWatch::idle(*config, recover),
            w.well_formed(),
    {
        FormatWatch {
            grace: config.format_mismatch_grace,
            min_frames: config.format_mismatch_frames,
            restart_limit: config.format_mismatch_restart_limit,
            recover,
            negotiated: None,
            mismatch_since: None,
            mismatch_frames: 0,
            restarts: 0,
            reopened: false,
            escalating: false,
            accepted: false,
        }
    }

    /// Starts to watch a device that was just opened.
    pub fn arm(&mut self, negotiated: Option<(u32, u32)>)
        ensures
            *final(self) == old(self).armed(negotiated),
            final(self).well_formed(),
    {
        self.negotiated = negotiated;
        self.mismatch_since = None;
        self.mismatch_frames = 0;
        self.restarts = 0;
        self.accepted = false;
        if !self.escalating {
            self.reopened = false;
        }
        self.escalating = false;
    }

    /// Ends the run of wrong frames.
    pub fn clear_format_run(&mut self)
        ensures
            *final(self) == old(self).cleared(),
            final(self).well_formed(),
    {
        self.mismatch_since = None;
        self.mismatch_frames = 0;
        self.restarts = 0;
        self.reopened = false;
        self.accepted = false;
    }

    /// Looks at the size of a frame that came at `now`.
    pub fn watch(&mut self, dims: (u32, u32), now: Nanos) -> (verdict: FormatVerdict)
        ensures
            (*final(self), verdict) == old(self).watched(dims, now),
            old(self).well_formed() ==> final(self).well_formed(),
    {
        let (grace, negotiated) = match (self.grace, self.negotiated) {
            (Some(grace), Some(negotiated)) => (grace, negotiated),
            _ => {
                return FormatVerdict::Fine;
            },
        };
        if dims.0 == negotiated.0 && dims.1 == negotiated.1 {
            self.clear_format_run();
            return FormatVerdict::Fine;
        }
        if self.accepted {
            return FormatVerdict::Fine;
        }
        self.mismatch_frames = self.mismatch_frames.saturating_add(1);
        let since: Nanos = match self.mismatch_since {
            Some(t) => t,
            None => now,
        };
        self.mismatch_since = Some(since);
        let waited: Nanos = clock::elapsed(now, since);
        if self.mismatch_frames < self.min_frames || waited < grace {
            return FormatVerdict::Fine;
        }
        if self.restarts >= self.restart_limit {
            if self.recover && !self.reopened {
                self.reopened = true;
                self.escalating = true;
                return FormatVerdict::Reopen;
            }
            self.accepted = true;
            return FormatVerdict::Accept;
        }
        let factor: u32 = grace_factor_of(self.restarts);
        let due: Nanos = clock::scaled(grace, factor);
        if waited < due {
            return FormatVerdict::Fine;
        }
        self.restarts = self.restarts + 1;
        self.mismatch_since = None;
        self.mismatch_frames = 0;
        FormatVerdict::Restart
    }
}

/// A run of frames under a watch: what was asked for, and the watch after it.
pub ghost struct FormatRun {
    pub watch: FormatWatch,
    pub restarts: nat,
    pub reopens: nat,
    pub accepts: nat,
}

/// The run of these frames, each with its size and its time. Where the watch asks for the device
/// to be reopened, it is reopened in the same mode.
pub open spec fn format_run(start: FormatWatch, frames: Seq<((u32, u32), Nanos)>) -> FormatRun
    decreases frames.len(),
{
    if frames.len() == 0 {
        FormatRun { watch: start, restarts: 0, reopens: 0, accepts: 0 }
    } else {
        let before = format_run(start, frames.drop_last());
        let (watch, verdict) = before.watch.watched(frames.last().0, frames.last().1);
        match verdict {
            FormatVerdict::Fine => FormatRun { watch, ..before },
            FormatVerdict::Restart => FormatRun { watch, restarts: before.restarts + 1, ..before },
            FormatVerdict::Reopen => FormatRun {
                watch: watch.armed(watch.negotiated),
                reopens: before.reopens + 1,
                ..before
            },
            FormatVerdict::Accept => FormatRun { watch, accepts: before.accepts + 1, ..before },
        }
    }
}

/// Whether no frame of the run has the negotiated size.
pub open spec fn all_mismatched(watch: FormatWatch, frames: Seq<((u32, u32), Nanos)>) -> bool {
    forall|i: int| 0 <= i < frames.len() ==> Some((#[trigger] frames[i]).0) != watch.negotiated
}

/// A device that never reaches the negotiated mode ends in acceptance and never in a loop: from a
/// fresh opening on, wrong frames buy at most one reopening, at most one budget of restarts
/// before it and one after it, and one acceptance. Without a device to reopen there is no
/// reopening and only one budget.
pub proof fn the_format_ladder_is_bounded(start: FormatWatch, frames: Seq<((u32, u32), Nanos)>)
    requires
        start == start.armed(start.negotiated),
        !start.reopened,
        all_mismatched(start, frames),
    ensures
        format_run(start, frames).reopens <= (if start.recover {
            1nat
        } else {
            0nat
        }),
        format_run(start, frames).restarts <= start.restart_limit * (1 + format_run(
            start,
            frames,
        ).reopens),
        format_run(start, frames).accepts <= 1,
{
    lemma_ladder(start, frames);
    let run = format_run(start, frames);
    assert(start.restart_limit * (1 + run.reopens) == start.restart_limit * 1 + start.restart_limit
        * run.reopens) by (nonlinear_arith);
    if run.reopens == 1 {
        assert(start.restart_limit * run.reopens == start.restart_limit) by (nonlinear_arith)
            requires
                run.reopens == 1,
        ;
    }
}

proof fn lemma_ladder(start: FormatWatch, frames: Seq<((u32, u32), Nanos)>)
    requires
        start == start.armed(start.negotiated),
        !start.reopened,
        all_mismatched(start, frames),
    ensures
        ({
            let run = format_run(start, frames);
            let w = run.watch;
            &&& w.grace == start.grace
            &&& w.min_frames == start.min_frames
            &&& w.restart_limit == start.restart_limit
            &&& w.recover == start.recover
            &&& w.negotiated == start.negotiated
            &&& !w.escalating
            &&& w.restarts <= w.restart_limit
            &&& w.reopened ==> w.recover
            &&& run.reopens == if w.reopened {
                1nat
            } else {
                0nat
            }
            &&& run.accepts == if w.accepted {
                1nat
            } else {
                0nat
            }
            &&& run.restarts <= w.restarts + (if w.reopened {
                w.restart_limit as nat
            } else {
                0nat
            })
        }),
    decreases frames.len(),
{
    if frames.len() > 0 {
        let head = frames.drop_last();
        assert forall|i: int| 0 <= i < head.len() implies Some((#[trigger] head[i]).0)
            != start.negotiated by {
            assert(head[i] == frames[i]);
        }
        lemma_ladder(start, head);
        assert(frames.last() == frames[frames.len() - 1]);
    }
}

/// A run that is shorter than the frame gate is never acted on, however slowly its frames come:
/// the few frames at the previous size after an idle period cannot cost a stream its restart.
pub proof fn a_short_run_is_never_acted_on(start: FormatWatch, frames: Seq<((u32, u32), Nanos)>)
    requires
        start.mismatch_frames == 0,
        frames.len() < start.min_frames,
    ensures
        format_run(start, frames).restarts == 0,
        format_run(start, frames).reopens == 0,
        format_run(start, frames).accepts == 0,
{
    lemma_short_run(start, frames);
}

proof fn lemma_short_run(start: FormatWatch, frames: Seq<((u32, u32), Nanos)>)
    requires
        start.mismatch_frames == 0,
        frames.len() < start.min_frames,
    ensures
        format_run(start, frames).restarts == 0,
        format_run(start, frames).reopens == 0,
        format_run(start, frames).accepts == 0,
        format_run(start, frames).watch.mismatch_frames <= frames.len(),
        format_run(start, frames).watch.min_frames == start.min_frames,
    decreases frames.len(),
{
    if frames.len() > 0 {
        lemma_short_run(start, frames.drop_last());
    }
}

/// A source that negotiated nothing is never restarted for the size of its frames, and neither is
/// any source while the watch is switched off.
pub proof fn nothing_negotiated_means_nothing_watched(watch: FormatWatch, dims: (u32, u32), now: Nanos)
    requires
        watch.negotiated is None || watch.grace is None,
    ensures
        watch.watched(dims, now) == (watch, FormatVerdict::Fine),
{
}

/// One frame of the negotiated size starts the ladder over.
pub proof fn a_frame_of_the_negotiated_size_refills_the_budget(
    watch: FormatWatch,
    dims: (u32, u32),
    now: Nanos,
)
    requires
        watch.grace is Some,
        watch.negotiated == Some(dims),
    ensures
        watch.watched(dims, now) == (watch.cleared(), FormatVerdict::Fine),
        watch.watched(dims, now).0.restarts == 0,
        !watch.watched(dims, now).0.reopened,
        !watch.watched(dims, now).0.accepted,
{
}

/// How one pass of the capture loop ended.
#[derive(Debug)]
pub enum StepEnd {
    Continue,
    /// The device is gone, with the message to record.
    Lost(String),
    /// The device is there and is to be opened again, with the reason to record. Nothing was
    /// lost.
    Reopen(String),
    /// Something in the pass panicked, with the message of the panic.
    Panicked(String),
}

/// What a pass of the capture loop does next.
#[derive(Debug)]
pub enum Step {
    /// Ask the source for a frame.
    NextFrame,
    /// Restart the source.
    Restart,
    /// Sleep for this long, and the pass is over.
    Nap(Nanos),
    Done(StepEnd),
}

/// How a restart of the source went.
#[derive(Debug)]
pub enum RestartOutcome {
    Returned(Result<(), CaptureError>),
    Panicked(String),
}

/// What the capture thread does when a pass is over.
#[derive(Debug, Clone, Copy, PartialEq, Eq, Structural)]
pub enum LoopAction {
    Continue,
    /// Drop the source and go on.
    Release,
    /// Drop the source and finish.
    Exit,
}

/// How the next pass of the capture loop starts.
#[derive(Debug, Clone, Copy, PartialEq, Eq, Structural)]
pub enum LoopStart {
    Exit,
    Reconnect,
    Step,
}

/// What happened while the device was being reopened.
#[derive(Debug)]
pub enum ReconnectEvent {
    /// It is time to wait for the next attempt.
    Begin,
    /// The wait is over.
    Waited,
    /// The opening came to an end: with what the new source negotiated, with an error, or with
    /// nothing because the pipeline is to stop.
    Opened(Option<Result<Option<(u32, u32)>, CaptureError>>),
}

/// What reopening the device takes next.
#[derive(Debug, Clone, Copy, PartialEq, Eq, Structural)]
pub enum ReconnectStep {
    /// Wait for this long.
    Wait(Nanos),
    /// Try to open the device.
    Open,
    /// The attempt failed; begin again with this wait.
    Retry(Nanos),
    /// The device is open.
    Reopened,
    /// The pipeline is to stop.
    Stopping,
}

/// What was heard within one poll of the thread that opens the device. An opening cannot be
/// interrupted, so it runs on a thread that a stop can leave behind.
#[derive(Debug)]
pub enum OpenWord {
    /// The opening came to an end: with what the new source negotiated, or with an error.
    Opened(Result<Option<(u32, u32)>, CaptureError>),
    /// The opening panicked, with the message of the panic.
    Panicked(String),
    /// Nothing yet.
    Nothing,
    /// The thread is gone and has said nothing.
    Ended,
}

/// What is made of it.
#[derive(Debug)]
pub enum OpenWait {
    /// The opening came to an end, or the pipeline is to stop and nobody waits for it.
    Done(Option<Result<Option<(u32, u32)>, CaptureError>>),
    /// Poll again.
    Poll,
}

/// Waits for an opening, one poll at a time. Only a pipeline that is to stop gives one up.
pub fn open_detached(word: OpenWord, closed: bool, shared: &Shared) -> (r: OpenWait)
    ensures
        match word {
            OpenWord::Opened(result) => r == OpenWait::Done(Some(result)),
            OpenWord::Panicked(why) => r matches OpenWait::Done(Some(Err(CaptureError::Config(msg))))
                && msg@ == "opening the device panicked: "@ + why@,
            OpenWord::Nothing => if shared.stopping || closed {
                r == OpenWait::Done(None)
            } else {
                r is Poll
            },
            OpenWord::Ended => r matches OpenWait::Done(Some(Err(CaptureError::Config(msg))))
                && msg@ == "the open helper thread ended without answering"@,
        },
{
    match word {
        OpenWord::Opened(result) => OpenWait::Done(Some(result)),
        OpenWord::Panicked(why) => OpenWait::Done(
            Some(
                Err(
                    CaptureError::Config(
                        "opening the device panicked: ".to_owned().concat(why.as_str()),
                    ),
                ),
            ),
        ),
        OpenWord::Nothing => if shared.stopping || closed {
            OpenWait::Done(None)
        } else {
            OpenWait::Poll
        },
        OpenWord::Ended => OpenWait::Done(
            Some(
                Err(
                    CaptureError::Config(
                        "the open helper thread ended without answering".to_owned(),
                    ),
                ),
            ),
        ),
    }
}

/// What the capture thread remembers from one pass to the next.
#[derive(Debug, Clone, Copy, PartialEq, Eq)]
pub struct Capture {
    /// Whether there is a source: none between losing one and opening the next.
    pub has_source: bool,
    /// Whether a lost device is reopened.
    pub recover: bool,
    pub restart_after: Option<Nanos>,
    pub reopen_backoff: Nanos,
    pub reopen_max_backoff: Nanos,
    pub watch: FormatWatch,
    /// Errors since the latest frame.
    pub consecutive_errors: u32,
    /// The kind of the latest error, if no frame has come since.
    pub last_kind: Option<(u8, i32)>,
    /// From when a stall is measured: the latest frame, restart or opening.
    pub restart_base: Nanos,
}

/// The reason that is recorded for a reopening by the format watch.
pub open spec fn reopen_words(
    dims: (u32, u32),
    restarts: u32,
    negotiated: (u32, u32),
    n: u64,
) -> Seq<char> {
    "frames have been "@ + decoder::size_words(dims.0 as nat, dims.1 as nat) + " through "@
        + text::decimal(restarts as nat) + " stream restart(s) but the negotiated format is "@
        + decoder::size_words(negotiated.0 as nat, negotiated.1 as nat)
        + "; reopening the device to commit it again (format-mismatch reopen "@ + text::decimal(
        n as nat,
    ) + ")"@
}

/// The reason above, as a string.
fn reopen_reason(dims: (u32, u32), restarts: u32, negotiated: (u32, u32), n: u64) -> (s: String)
    ensures
        s@ == reopen_words(dims, restarts, negotiated, n),
{
    let mut s = "frames have been ".to_owned();
    decoder::push_size(&mut s, dims.0, dims.1);
    s.append(" through ");
    text::push_decimal(&mut s, restarts as u128);
    s.append(" stream restart(s) but the negotiated format is ");
    decoder::push_size(&mut s, negotiated.0, negotiated.1);
    s.append("; reopening the device to commit it again (format-mismatch reopen ");
    text::push_decimal(&mut s, n as u128);
    s.append(")");
    s
}

/// How long the nap after an error is, when it is the `errors`-th in a row.
pub open spec fn nap_after(errors: u32) -> Nanos {
    if errors > BACKOFF_ESCALATE_AFTER {
        BACKOFF_SLOW
    } else {
        BACKOFF
    }
}

impl Capture {
    /// The wait before the opening after one that was waited for with `delay` and failed.
    pub open spec fn next_wait(&self, delay: Nanos) -> Nanos {
        clock::least(clock::product(delay, 2), self.reopen_max_backoff)
    }

    /// A capture thread that starts at `now`, without a source.
    pub fn new(recover: bool, config: &PipelineConfig, now: Nanos) -> (c: Capture)
        ensures
            c == (Capture {
                has_source: false,
                recover,
                restart_after: config.restart_after,
                reopen_backoff: config.reopen_backoff,
                reopen_max_backoff: config.reopen_max_backoff,
                watch: FormatWatch::idle(*config, recover),
                consecutive_errors: 0,
                last_kind: None,
                restart_base: now,
            }),
            c.watch.well_formed(),
    {
        Capture {
            has_source: false,
            recover,
            restart_after: config.restart_after,
            reopen_backoff: config.reopen_backoff,
            reopen_max_backoff: config.reopen_max_backoff,
            watch: FormatWatch::new(config, recover),
            consecutive_errors: 0,
            last_kind: None,
            restart_base: now,
        }
    }

    /// Starts to watch the source that was just opened, and reports what it negotiated.
    pub fn arm_format_watch(&mut self, negotiated: Option<(u32, u32)>, shared: &mut Shared)
        ensures
            *final(self) == (Capture {
                watch: old(self).watch.armed(negotiated),
                ..*old(self)
            }),
            final(shared).counters == (Counters {
                negotiated_dimensions: negotiated,
                ..old(shared).counters
            }),
            final(shared).last_error == old(shared).last_error,
            final(shared).same_setting(*old(shared)),
            final(shared).keeps(*old(shared), false),
    {
        self.watch.arm(negotiated);
        shared.counters.negotiated_dimensions = negotiated;
    }

    /// Takes the outcome of the first opening: what the source negotiated, an error, or nothing
    /// because the pipeline is to stop. Says whether the capture thread goes on.
    ///
    /// A failure is no disconnection, since nothing was connected. A recovering pipeline goes on
    /// to retry, which is what starting the client before plugging the device in needs.
    pub fn open_first(
        &mut self,
        opened: Option<Result<Option<(u32, u32)>, CaptureError>>,
        shared: &mut Shared,
        now: Nanos,
    ) -> (go_on: bool)
        ensures
            final(shared).same_setting(*old(shared)),
            final(shared).keeps(*old(shared), false),
            match opened {
                None => !go_on && *final(self) == *old(self) && *final(shared) == *old(shared),
                Some(Ok(negotiated)) => {
                    &&& go_on
                    &&& *final(self) == (Capture {
                        has_source: true,
                        restart_base: now,
                        watch: old(self).watch.armed(negotiated),
                        ..*old(self)
                    })
                    &&& final(shared).counters == (Counters {
                        negotiated_dimensions: negotiated,
                        ..old(shared).counters
                    })
                    &&& final(shared).last_error == old(shared).last_error
                },
                Some(Err(e)) => {
                    &&& go_on == old(self).recover
                    &&& *final(self) == *old(self)
                    &&& final(shared).counters == (Counters {
                        state: PipelineState::Disconnected,
                        disconnected_since: Some(now),
                        ..old(shared).counters
                    })
                    &&& words_of(final(shared).last_error) == Some(e.words())
                },
            },
    {
        match opened {
            None => false,
            Some(Ok(negotiated)) => {
                self.has_source = true;
                self.restart_base = now;
                self.arm_format_watch(negotiated, shared);
                true
            },
            Some(Err(e)) => {
                shared.last_error = Some(e.text());
                shared.counters.state = PipelineState::Disconnected;
                shared.counters.disconnected_since = Some(now);
                self.recover
            },
        }
    }

    /// How long the first wait before a reopening is. The longest wait binds it too.
    pub fn first_delay(&self) -> (d: Nanos)
        ensures
            d == clock::least(self.reopen_backoff, self.reopen_max_backoff),
            d == reopen_wait(*self, 0),
    {
        clock::shorter(self.reopen_backoff, self.reopen_max_backoff)
    }

    /// One step of reopening the device: wait, try, and wait for twice as long, up to the longest
    /// wait, until it works or the pipeline is to stop.
    pub fn reconnect(
        &mut self,
        event: ReconnectEvent,
        delay: Nanos,
        closed: bool,
        shared: &mut Shared,
        now: Nanos,
    ) -> (r: ReconnectStep)
        requires
            old(shared).counters.has_room(),
        ensures
            final(shared).same_setting(*old(shared)),
            final(shared).keeps(*old(shared), r == ReconnectStep::Reopened),
            match event {
                ReconnectEvent::Begin => {
                    &&& *final(self) == *old(self)
                    &&& final(shared).last_error == old(shared).last_error
                    &&& if old(shared).stopping || closed {
                        &&& r == ReconnectStep::Stopping
                        &&& final(shared).counters == old(shared).counters
                    } else {
                        &&& r == ReconnectStep::Wait(delay)
                        &&& final(shared).counters == (Counters {
                            state: PipelineState::Reconnecting,
                            ..old(shared).counters
                        })
                    }
                },
                ReconnectEvent::Waited => {
                    &&& *final(self) == *old(self)
                    &&& final(shared).last_error == old(shared).last_error
                    &&& if old(shared).stopping || closed {
                        &&& r == ReconnectStep::Stopping
                        &&& final(shared).counters == old(shared).counters
                    } else {
                        &&& r == ReconnectStep::Open
                        &&& final(shared).counters == (Counters {
                            reopen_attempts: (old(shared).counters.reopen_attempts + 1) as u64,
                            ..old(shared).counters
                        })
                    }
                },
                ReconnectEvent::Opened(None) => {
                    &&& r == ReconnectStep::Stopping
                    &&& *final(self) == *old(self)
                    &&& *final(shared) == *old(shared)
                },
                ReconnectEvent::Opened(Some(Ok(negotiated))) => {
                    &&& r == ReconnectStep::Reopened
                    &&& *final(self) == (Capture {
                        has_source: true,
                        consecutive_errors: 0,
                        last_kind: None,
                        restart_base: now,
                        watch: old(self).watch.armed(negotiated),
                        ..*old(self)
                    })
                    &&& final(shared).counters == (Counters {
                        reopens: (old(shared).counters.reopens + 1) as u64,
                        state: PipelineState::Running,
                        disconnected_since: None,
                        negotiated_dimensions: negotiated,
                        ..old(shared).counters
                    })
                    &&& final(shared).last_error is None
                },
                ReconnectEvent::Opened(Some(Err(e))) => {
                    &&& r == ReconnectStep::Retry(
                        clock::least(clock::product(delay, 2), old(self).reopen_max_backoff),
                    )
                    &&& r == ReconnectStep::Retry(old(self).next_wait(delay))
                    &&& *final(self) == *old(self)
                    &&& final(shared).counters == old(shared).counters
                    &&& words_of(final(shared).last_error) == Some(e.words())
                },
            },
    {
        match event {
            ReconnectEvent::Begin => {
                if shared.stopping || closed {
                    return ReconnectStep::Stopping;
                }
                shared.counters.state = PipelineState::Reconnecting;
                ReconnectStep::Wait(delay)
            },
            ReconnectEvent::Waited => {
                if shared.stopping || closed {
                    return ReconnectStep::Stopping;
                }
                shared.counters.reopen_attempts = shared.counters.reopen_attempts + 1;
                ReconnectStep::Open
            },
            ReconnectEvent::Opened(None) => ReconnectStep::Stopping,
            ReconnectEvent::Opened(Some(Ok(negotiated))) => {
                self.has_source = true;
                self.consecutive_errors = 0;
                self.last_kind = None;
                self.restart_base = now;
                self.arm_format_watch(negotiated, shared);
                shared.counters.reopens = shared.counters.reopens + 1;
                shared.counters.state = PipelineState::Running;
                shared.counters.disconnected_since = None;
                shared.last_error = None;
                ReconnectStep::Reopened
            },
            ReconnectEvent::Opened(Some(Err(e))) => {
                shared.last_error = Some(e.text());
                ReconnectStep::Retry(clock::shorter(clock::scaled(delay, 2), self.reopen_max_backoff))
            },
        }
    }

    /// Notes that there is no source any more.
    pub fn release_source(&mut self)
        ensures
            *final(self) == (Capture { has_source: false, ..*old(self) }),
    {
        self.has_source = false;
    }

    /// Notes that the device was lost.
    pub fn lose_device(&mut self, msg: String, shared: &mut Shared, now: Nanos)
        requires
            old(shared).counters.has_room(),
        ensures
            *final(self) == (Capture { has_source: false, ..*old(self) }),
            final(shared).same_setting(*old(shared)),
            final(shared).keeps(*old(shared), false),
            final(shared).last_error == Some(msg),
            final(shared).counters == (Counters {
                state: PipelineState::Disconnected,
                disconnects: (old(shared).counters.disconnects + 1) as u64,
                disconnected_since: Some(now),
                negotiated_dimensions: None,
                ..old(shared).counters
            }),
    {
        shared.counters.state = PipelineState::Disconnected;
        shared.last_error = Some(msg);
        shared.counters.disconnects = shared.counters.disconnects + 1;
        shared.counters.disconnected_since = Some(now);
        shared.counters.negotiated_dimensions = None;
        self.release_source();
    }

    /// Whether a stall has lasted for long enough to restart the stream.
    pub open spec fn stall_is_due(&self, now: Nanos) -> bool {
        self.restart_after matches Some(after) && clock::since(now, self.restart_base) >= after
    }

    /// Begins a pass: restart the stream where a stall has lasted for long enough, or else ask
    /// for a frame. A stall is measured anew from the restart on, whatever comes of it.
    pub fn step(&mut self, shared: &mut Shared, now: Nanos) -> (r: Step)
        requires
            old(shared).counters.has_room(),
        ensures
            final(shared).same_setting(*old(shared)),
            final(shared).keeps(*old(shared), false),
            final(shared).last_error == old(shared).last_error,
            if old(self).stall_is_due(now) {
                &&& *final(self) == (Capture { restart_base: now, ..*old(self) })
                &&& if old(self).has_source {
                    &&& r == Step::Restart
                    &&& final(shared).counters == (Counters {
                        stream_restarts: (old(shared).counters.stream_restarts + 1) as u64,
                        ..old(shared).counters
                    })
                } else {
                    &&& r == Step::Done(StepEnd::Continue)
                    &&& final(shared).counters == old(shared).counters
                }
            } else {
                &&& *final(self) == *old(self)
                &&& final(shared).counters == old(shared).counters
                &&& r == if old(self).has_source {
                    Step::NextFrame
                } else {
                    Step::Done(StepEnd::Continue)
                }
            },
    {
        if let Some(after) = self.restart_after {
            if clock::elapsed(now, self.restart_base) >= after {
                return self.restart_stream(shared, now);
            }
        }
        if self.has_source {
            Step::NextFrame
        } else {
            Step::Done(StepEnd::Continue)
        }
    }

    /// The answer to a stall.
    fn restart_stream(&mut self, shared: &mut Shared, now: Nanos) -> (r: Step)
        requires
            old(shared).counters.has_room(),
        ensures
            final(shared).same_setting(*old(shared)),
            final(shared).keeps(*old(shared), false),
            final(shared).last_error == old(shared).last_error,
            *final(self) == (Capture { restart_base: now, ..*old(self) }),
            if old(self).has_source {
                &&& r == Step::Restart
                &&& final(shared).counters == (Counters {
                    stream_restarts: (old(shared).counters.stream_restarts + 1) as u64,
                    ..old(shared).counters
                })
            } else {
                &&& r == Step::Done(StepEnd::Continue)
                &&& final(shared).counters == old(shared).counters
            },
    {
        self.restart_base = now;
        if !self.has_source {
            return Step::Done(StepEnd::Continue);
        }
        shared.counters.stream_restarts = shared.counters.stream_restarts + 1;
        Step::Restart
    }

    /// Takes the outcome of a restart, whichever timer asked for it.
    ///
    /// A restart that failed or panicked is an ordinary capture error: the same source is polled
    /// on. Only a restart that found the node gone is a disconnection.
    pub fn invoke_restart(&mut self, outcome: RestartOutcome, shared: &mut Shared) -> (r: StepEnd)
        requires
            old(shared).counters.has_room(),
        ensures
            *final(self) == *old(self),
            final(shared).same_setting(*old(shared)),
            final(shared).keeps(*old(shared), false),
            match outcome {
                RestartOutcome::Returned(Ok(())) => r == StepEnd::Continue && *final(shared)
                    == *old(shared),
                RestartOutcome::Returned(Err(CaptureError::Disconnected)) => {
                    &&& r is Lost
                    &&& r->Lost_0@ == CaptureError::Disconnected.words()
                    &&& *final(shared) == *old(shared)
                },
                RestartOutcome::Returned(Err(e)) => {
                    &&& r == StepEnd::Continue
                    &&& words_of(final(shared).last_error) == Some(
                        "stream restart failed: "@ + e.words(),
                    )
                    &&& final(shared).counters == (Counters {
                        capture_errors: (old(shared).counters.capture_errors + 1) as u64,
                        ..old(shared).counters
                    })
                },
                RestartOutcome::Panicked(why) => {
                    &&& r == StepEnd::Continue
                    &&& words_of(final(shared).last_error) == Some(
                        "stream restart panicked: "@ + why@,
                    )
                    &&& final(shared).counters == (Counters {
                        capture_errors: (old(shared).counters.capture_errors + 1) as u64,
                        ..old(shared).counters
                    })
                },
            },
    {
        match outcome {
            RestartOutcome::Returned(Ok(())) => StepEnd::Continue,
            RestartOutcome::Returned(Err(CaptureError::Disconnected)) => {
                StepEnd::Lost(CaptureError::Disconnected.text())
            },
            RestartOutcome::Returned(Err(e)) => {
                let why = e.text();
                self.failed_restart("stream restart failed: ".to_owned().concat(why.as_str()), shared)
            },
            RestartOutcome::Panicked(why) => self.failed_restart(
                "stream restart panicked: ".to_owned().concat(why.as_str()),
                shared,
            ),
        }
    }

    /// Notes a restart that did not work.
    fn failed_restart(&mut self, message: String, shared: &mut Shared) -> (r: StepEnd)
        requires
            old(shared).counters.has_room(),
        ensures
            *final(self) == *old(self),
            r == StepEnd::Continue,
            final(shared).same_setting(*old(shared)),
            final(shared).keeps(*old(shared), false),
            final(shared).last_error == Some(message),
            final(shared).counters == (Counters {
                capture_errors: (old(shared).counters.capture_errors + 1) as u64,
                ..old(shared).counters
            }),
    {
        shared.counters.capture_errors = shared.counters.capture_errors + 1;
        shared.last_error = Some(message);
        StepEnd::Continue
    }

    /// Looks at the size of a frame that was handed on.
    pub fn watch_format(&mut self, dims: (u32, u32), shared: &mut Shared, now: Nanos) -> (r: Step)
        requires
            old(shared).counters.format_mismatch_restarts < u64::MAX,
            old(shared).counters.format_mismatch_reopens < u64::MAX,
            old(shared).counters.format_mismatch_accepted < u64::MAX,
        ensures
            final(shared).same_setting(*old(shared)),
            final(shared).keeps(*old(shared), false),
            final(shared).last_error == old(shared).last_error,
            old(self).watch.well_formed() ==> final(self).watch.well_formed(),
            ({
                let (watch, verdict) = old(self).watch.watched(dims, now);
                &&& *final(self) == (Capture {
                    watch,
                    restart_base: if verdict == FormatVerdict::Restart {
                        now
                    } else {
                        old(self).restart_base
                    },
                    ..*old(self)
                })
                &&& final(shared).counters == old(shared).counters.with_verdict(verdict)
                &&& match verdict {
                    FormatVerdict::Fine => r == Step::Done(StepEnd::Continue),
                    FormatVerdict::Accept => r == Step::Done(StepEnd::Continue),
                    FormatVerdict::Restart => r == Step::Restart,
                    FormatVerdict::Reopen => {
                        &&& r is Done
                        &&& r->Done_0 is Reopen
                        &&& r->Done_0->Reopen_0@ == reopen_words(
                            dims,
                            watch.restarts,
                            watch.negotiated->0,
                            final(shared).counters.format_mismatch_reopens,
                        )
                    },
                }
            }),
    {
        let verdict = self.watch.watch(dims, now);
        shared.counters.count_verdict(verdict);
        match verdict {
            FormatVerdict::Fine => Step::Done(StepEnd::Continue),
            FormatVerdict::Accept => Step::Done(StepEnd::Continue),
            FormatVerdict::Restart => {
                self.restart_base = now;
                Step::Restart
            },
            FormatVerdict::Reopen => {
                let negotiated = match self.watch.negotiated {
                    Some(negotiated) => negotiated,
                    None => (0, 0),
                };
                Step::Done(
                    StepEnd::Reopen(
                        reopen_reason(
                            dims,
                            self.watch.restarts,
                            negotiated,
                            shared.counters.format_mismatch_reopens,
                        ),
                    ),
                )
            },
        }
    }

    /// Takes what the source answered to the call for a frame.
    ///
    /// A frame is counted and handed on, and then its size is looked at. A frame that it displaces
    /// is obsolete, and counted as dropped. An error is counted every time and worded once per
    /// run of the same kind, and answered with a nap, a longer one after many in a row.
    pub fn captured(
        &mut self,
        result: Result<CompressedFrame, CaptureError>,
        compressed: &mut Slot<CompressedFrame>,
        shared: &mut Shared,
        now: Nanos,
    ) -> (r: Step)
        requires
            old(shared).counters.has_room(),
            old(compressed)@.dropped < u64::MAX,
        ensures
            final(shared).same_setting(*old(shared)),
            final(shared).keeps(*old(shared), false),
            old(self).watch.well_formed() ==> final(self).watch.well_formed(),
            match result {
                Ok(frame) => {
                    let dims = (frame.width, frame.height);
                    let (watch, verdict) = old(self).watch.watched(dims, now);
                    let (slot, back) = old(compressed)@.put(frame);
                    let counted = old(shared).counters.with_frame(frame, frame_len(frame), now);
                    let handed = Counters {
                        dropped_pre_decode: if back is Some && !slot.closed {
                            (counted.dropped_pre_decode + 1) as u64
                        } else {
                            counted.dropped_pre_decode
                        },
                        ..counted
                    };
                    &&& final(compressed)@ == slot
                    &&& *final(self) == (Capture {
                        consecutive_errors: 0,
                        last_kind: None,
                        restart_base: now,
                        watch,
                        ..*old(self)
                    })
                    &&& final(shared).counters == handed.with_verdict(verdict)
                    &&& final(shared).last_error == old(shared).last_error
                    &&& match verdict {
                        FormatVerdict::Fine => r == Step::Done(StepEnd::Continue),
                        FormatVerdict::Accept => r == Step::Done(StepEnd::Continue),
                        FormatVerdict::Restart => r == Step::Restart,
                        FormatVerdict::Reopen => {
                            &&& r is Done
                            &&& r->Done_0 is Reopen
                            &&& r->Done_0->Reopen_0@ == reopen_words(
                                dims,
                                watch.restarts,
                                watch.negotiated->0,
                                final(shared).counters.format_mismatch_reopens,
                            )
                        },
                    }
                },
                Err(CaptureError::Disconnected) => {
                    &&& r is Done
                    &&& r->Done_0 is Lost
                    &&& r->Done_0->Lost_0@ == CaptureError::Disconnected.words()
                    &&& *final(self) == *old(self)
                    &&& *final(shared) == *old(shared)
                    &&& final(compressed)@ == old(compressed)@
                },
                Err(e) => {
                    &&& *final(self) == (Capture {
                        consecutive_errors: count::one_more(old(self).consecutive_errors),
                        last_kind: Some(kind_of(e)),
                        ..*old(self)
                    })
                    &&& final(shared).counters == (Counters {
                        capture_errors: (old(shared).counters.capture_errors + 1) as u64,
                        ..old(shared).counters
                    })
                    &&& words_of(final(shared).last_error) == if old(self).last_kind == Some(
                        kind_of(e),
                    ) {
                        words_of(old(shared).last_error)
                    } else {
                        Some(e.words())
                    }
                    &&& r == Step::Nap(
                        if final(self).consecutive_errors > BACKOFF_ESCALATE_AFTER {
                            BACKOFF_SLOW
                        } else {
                            BACKOFF
                        },
                    )
                    &&& r == Step::Nap(nap_after(final(self).consecutive_errors))
                    &&& final(compressed)@ == old(compressed)@
                },
            },
            result matches Ok(frame) ==> final(shared).counters == old(shared).counters.handed_on(
                old(compressed)@,
                frame,
                now,
            ).with_verdict(old(self).watch.watched((frame.width, frame.height), now).1),
    {
        match result {
            Ok(frame) => {
                self.consecutive_errors = 0;
                self.last_kind = None;
                self.restart_base = now;
                let dims = (frame.width, frame.height);
                shared.counters.count_frame(&frame, now);
                let back = compressed.put(frame);
                if back.is_some() && !compressed.is_closed() {
                    shared.counters.dropped_pre_decode = shared.counters.dropped_pre_decode + 1;
                }
                self.watch_format(dims, shared, now)
            },
            Err(CaptureError::Disconnected) => Step::Done(
                StepEnd::Lost(CaptureError::Disconnected.text()),
            ),
            Err(e) => {
                self.consecutive_errors = self.consecutive_errors.saturating_add(1);
                let kind = error_kind(&e);
                let known = match self.last_kind {
                    Some((group, number)) => group == kind.0 && number == kind.1,
                    None => false,
                };
                shared.counters.capture_errors = shared.counters.capture_errors + 1;
                if !known {
                    shared.last_error = Some(e.text());
                    self.last_kind = Some(kind);
                }
                Step::Nap(
                    if self.consecutive_errors > BACKOFF_ESCALATE_AFTER {
                        BACKOFF_SLOW
                    } else {
                        BACKOFF
                    },
                )
            },
        }
    }

    /// How the next pass of a thread starts.
    pub open spec fn pass_start(stopping: bool, closed: bool, has_source: bool) -> LoopStart {
        if stopping || closed {
            LoopStart::Exit
        } else if !has_source {
            LoopStart::Reconnect
        } else {
            LoopStart::Step
        }
    }

    /// How the next pass starts.
    pub fn next_pass(&self, compressed: &Slot<CompressedFrame>, shared: &Shared) -> (r: LoopStart)
        ensures
            r == (if shared.stopping || compressed@.closed {
                LoopStart::Exit
            } else if !self.has_source {
                LoopStart::Reconnect
            } else {
                LoopStart::Step
            }),
            r == Capture::pass_start(shared.stopping, compressed@.closed, self.has_source),
    {
        if shared.stopping || compressed.is_closed() {
            LoopStart::Exit
        } else if !self.has_source {
            LoopStart::Reconnect
        } else {
            LoopStart::Step
        }
    }
}

/// Takes the end of a pass.
///
/// A lost device is reopened by a recovering pipeline, with the handoff left open so that the
/// last image stays. Without recovery the handoff is closed and the thread finishes. A reopening
/// that the format watch asked for loses nothing, and a panic counts as a loss.
pub fn capture_loop(
    cap: &mut Capture,
    end: StepEnd,
    compressed: &mut Slot<CompressedFrame>,
    shared: &mut Shared,
    now: Nanos,
) -> (r: LoopAction)
    requires
        old(shared).counters.has_room(),
    ensures
        final(shared).same_setting(*old(shared)),
        final(shared).keeps(*old(shared), false),
        match end {
            StepEnd::Continue => {
                &&& r == LoopAction::Continue
                &&& *final(cap) == *old(cap)
                &&& *final(shared) == *old(shared)
                &&& final(compressed)@ == old(compressed)@
            },
            StepEnd::Reopen(msg) => {
                &&& r == LoopAction::Release
                &&& *final(cap) == (Capture { has_source: false, ..*old(cap) })
                &&& final(shared).last_error == Some(msg)
                &&& final(shared).counters == (Counters {
                    negotiated_dimensions: None,
                    ..old(shared).counters
                })
                &&& final(compressed)@ == old(compressed)@
            },
            StepEnd::Lost(_) | StepEnd::Panicked(_) => {
                &&& words_of(final(shared).last_error) == Some(
                    match end {
                        StepEnd::Panicked(why) => "capture thread panicked: "@ + why@,
                        StepEnd::Lost(msg) => msg@,
                        _ => seq![],
                    },
                )
                &&& *final(cap) == (Capture { has_source: false, ..*old(cap) })
                &&& final(shared).counters == (Counters {
                    state: PipelineState::Disconnected,
                    disconnects: (old(shared).counters.disconnects + 1) as u64,
                    disconnected_since: Some(now),
                    negotiated_dimensions: None,
                    ..old(shared).counters
                })
                &&& if old(cap).recover {
                    r == LoopAction::Release && final(compressed)@ == old(compressed)@
                } else {
                    r == LoopAction::Exit && final(compressed)@ == old(compressed)@.close()
                }
            },
        },
{
    let msg = match end {
        StepEnd::Continue => {
            return LoopAction::Continue;
        },
        StepEnd::Reopen(msg) => {
            shared.last_error = Some(msg);
            shared.counters.negotiated_dimensions = None;
            cap.release_source();
            return LoopAction::Release;
        },
        StepEnd::Lost(msg) => msg,
        StepEnd::Panicked(why) => "capture thread panicked: ".to_owned().concat(why.as_str()),
    };
    cap.lose_device(msg, shared, now);
    if cap.recover {
        LoopAction::Release
    } else {
        compressed.close();
        LoopAction::Exit
    }
}

/// The wait before the reopening after `failures` failed ones.
pub open spec fn reopen_wait(cap: Capture, failures: nat) -> Nanos
    decreases failures,
{
    if failures == 0 {
        clock::least(cap.reopen_backoff, cap.reopen_max_backoff)
    } else {
        cap.next_wait(reopen_wait(cap, (failures - 1) as nat))
    }
}

/// The wait before a reopening doubles with every failure, and the longest wait binds every one
/// of them, the first too.
pub proof fn reopening_waits_double_up_to_the_longest(cap: Capture, failures: nat)
    ensures
        reopen_wait(cap, failures) == clock::least(
            clock::product(cap.reopen_backoff, clock::doublings(failures)),
            cap.reopen_max_backoff,
        ),
    decreases failures,
{
    if failures > 0 {
        let fewer = (failures - 1) as nat;
        reopening_waits_double_up_to_the_longest(cap, fewer);
        let d = clock::doublings(fewer);
        assert(cap.reopen_backoff * (2 * d) == 2 * (cap.reopen_backoff * d)) by (nonlinear_arith);
        assert(clock::doublings(failures) == 2 * d);
    } else {
        assert(cap.reopen_backoff * clock::doublings(0) == cap.reopen_backoff) by (nonlinear_arith)
            requires
                clock::doublings(0) == 1,
        ;
    }
}

/// How long the next piece of an interruptible wait is.
pub fn nap_piece(deadline: Nanos, now: Nanos) -> (d: Nanos)
    ensures
        d == clock::least(STOP_POLL, clock::since(deadline, now)),
{
    clock::shorter(STOP_POLL, clock::elapsed(deadline, now))
}

/// An opener that has one source to give and nothing after it.
pub struct OnceOpener<S> {
    source: Option<S>,
    label: String,
}

impl<S> OnceOpener<S> {
    /// The source that is still to be handed out.
    pub closed spec fn held(&self) -> Option<S> {
        self.source
    }

    /// What it calls itself.
    pub closed spec fn label(&self) -> Seq<char> {
        self.label@
    }

    pub fn new(source: S, label: String) -> (o: OnceOpener<S>)
        ensures
            o.held() == Some(source),
            o.label() == label@,
    {
        OnceOpener { source: Some(source), label }
    }

    /// Hands out the source, the first time.
    pub fn take(&mut self) -> (r: Result<S, CaptureError>)
        ensures
            r == (match old(self).held() {
                Some(source) => Ok(source),
                None => Err(CaptureError::Disconnected),
            }),
            final(self).held() is None,
            final(self).label() == old(self).label(),
    {
        let mut taken = None;
        core::mem::swap(&mut taken, &mut self.source);
        match taken {
            Some(source) => Ok(source),
            None => Err(CaptureError::Disconnected),
        }
    }
}

impl SourceOpener for OnceOpener<Box<dyn FrameSource>> {
    fn open(&mut self) -> (r: Result<Box<dyn FrameSource>, CaptureError>)
        ensures
            r == (match old(self).held() {
                Some(source) => Ok(source),
                None => Err(CaptureError::Disconnected),
            }),
            final(self).held() is None,
            final(self).label() == old(self).label(),
    {
        self.take()
    }

    fn describe(&self) -> (s: String)
        ensures
            s@ == self.label(),
    {
        self.label.clone()
    }
}

/// What the decode thread does after it waited for a frame.
#[derive(Debug)]
pub enum DecodeStep {
    Decode(CompressedFrame),
    /// Wait again.
    Again,
    Exit,
}

impl Counters {
    /// The counters after a frame has been put into this slot.
    pub open spec fn handed_on(
        self,
        slot: SlotView<CompressedFrame>,
        frame: CompressedFrame,
        now: Nanos,
    ) -> Counters {
        let counted = self.with_frame(frame, frame_len(frame), now);
        Counters {
            dropped_pre_decode: if slot.pending is Some && !slot.closed {
                (counted.dropped_pre_decode + 1) as u64
            } else {
                counted.dropped_pre_decode
            },
            ..counted
        }
    }

    /// The counters after a decoded frame has been put into this slot.
    pub open spec fn decoded_into(self, slot: SlotView<DecodedFrame>) -> Counters {
        Counters {
            frames_decoded: (self.frames_decoded + 1) as u64,
            dropped_post_decode: if slot.pending is Some && !slot.closed {
                (self.dropped_post_decode + 1) as u64
            } else {
                self.dropped_post_decode
            },
            ..self
        }
    }
}

/// What comes of the decode thread's wait for a frame.
pub open spec fn decode_step(
    taken: Option<CompressedFrame>,
    closed: bool,
    stopping: bool,
) -> DecodeStep {
    match taken {
        Some(frame) => DecodeStep::Decode(frame),
        None => if closed || stopping {
            DecodeStep::Exit
        } else {
            DecodeStep::Again
        },
    }
}

/// Takes the outcome of the decode thread's wait for a frame.
pub fn decode_next(taken: Option<CompressedFrame>, closed: bool, stopping: bool) -> (r: DecodeStep)
    ensures
        r == (match taken {
            Some(frame) => DecodeStep::Decode(frame),
            None => if closed || stopping {
                DecodeStep::Exit
            } else {
                DecodeStep::Again
            },
        }),
        r == decode_step(taken, closed, stopping),
{
    match taken {
        Some(frame) => DecodeStep::Decode(frame),
        None => {
            if closed || stopping {
                DecodeStep::Exit
            } else {
                DecodeStep::Again
            }
        },
    }
}

/// Takes the outcome of a decode: hands the frame on and counts it, or counts the error.
///
/// A displaced frame becomes the next scratch, so that its allocation is reused. Where the
/// handoff is closed it comes straight back, and is no drop.
pub fn decode_loop(
    result: Result<(), DecodeError>,
    scratch: &mut DecodedFrame,
    output: &mut Slot<DecodedFrame>,
    shared: &mut Shared,
)
    requires
        old(shared).counters.has_room(),
        old(output)@.dropped < u64::MAX,
    ensures
        final(shared).same_setting(*old(shared)),
        final(shared).keeps(*old(shared), false),
        match result {
            Ok(()) => {
                let (slot, back) = old(output)@.put(*old(scratch));
                &&& final(output)@ == slot
                &&& match back {
                    Some(displaced) => *final(scratch) == displaced,
                    None => {
                        &&& final(scratch).rgba@.len() == 0
                        &&& final(scratch).width == 0
                        &&& final(scratch).height == 0
                        &&& final(scratch).captured_at == 0
                        &&& final(scratch).sequence == 0
                    },
                }
                &&& final(shared).last_error == old(shared).last_error
                &&& final(shared).counters == (Counters {
                    frames_decoded: (old(shared).counters.frames_decoded + 1) as u64,
                    dropped_post_decode: if back is Some && !slot.closed {
                        (old(shared).counters.dropped_post_decode + 1) as u64
                    } else {
                        old(shared).counters.dropped_post_decode
                    },
                    ..old(shared).counters
                })
            },
            Err(e) => {
                &&& *final(scratch) == *old(scratch)
                &&& final(output)@ == old(output)@
                &&& words_of(final(shared).last_error) == Some(e.words())
                &&& final(shared).counters == (Counters {
                    decode_errors: (old(shared).counters.decode_errors + 1) as u64,
                    ..old(shared).counters
                })
            },
        },
        result is Ok ==> final(shared).counters == old(shared).counters.decoded_into(old(output)@),
{
    match result {
        Ok(()) => {
            shared.counters.frames_decoded = shared.counters.frames_decoded + 1;
            let mut done = DecodedFrame::empty();
            core::mem::swap(&mut done, scratch);
            match output.put(done) {
                Some(displaced) => {
                    if !output.is_closed() {
                        shared.counters.dropped_post_decode = shared.counters.dropped_post_decode
                            + 1;
                    }
                    *scratch = displaced;
                },
                None => {},
            }
        },
        Err(e) => {
            shared.counters.decode_errors = shared.counters.decode_errors + 1;
            shared.last_error = Some(e.text());
        },
    }
}

} // verus!
