//! Audio capture and playback, as two independent sides.
//!
//! A bounded ring of periods separates the two clocks. Each side reports its own opening, failure
//! and recovery, and a failure of audio stops nothing else. The threads, the devices and the clock
//! belong to the caller; what is decided and counted stands here.

use vstd::prelude::*;

use crate::clock;
use crate::clock::{Nanos, MILLISECOND, SECOND};
use crate::text;

pub mod alsa;
pub mod laws;
pub mod pcm;
pub mod ring;
pub mod worker;

pub use pcm::{FnSinkOpener, FnSourceOpener, PcmSink, PcmSinkOpener, PcmSource, PcmSourceOpener};
pub use ring::{
    DriftAction, DriftPolicy, PeriodRing, PopOutcome, PushOutcome, RingConfig, RingCounts, CHANNELS,
    SAMPLE_RATE,
};

verus! {

/// Why audio is not running. Each variant but the first names the device it is about.
#[derive(Debug)]
pub enum AudioError {
    /// No card could be named, with the explanation.
    NoCard(String),
    /// Something else holds the card.
    Busy { device: String, why: String },
    /// The device was there and is not any more.
    Gone { device: String, why: String },
    /// The device is there and would not open in the one format it has.
    Open { device: String, why: String },
    /// A read or a write failed for some other reason.
    Io { device: String, why: String },
}

impl AudioError {
    /// The device that this is about.
    pub open spec fn device_words(&self) -> Seq<char> {
        match self {
            AudioError::NoCard(_) => "(no card)"@,
            AudioError::Busy { device, .. } => device@,
            AudioError::Gone { device, .. } => device@,
            AudioError::Open { device, .. } => device@,
            AudioError::Io { device, .. } => device@,
        }
    }

    /// The coarse kind.
    pub open spec fn kind_words(&self) -> Seq<char> {
        match self {
            AudioError::NoCard(_) => "no card"@,
            AudioError::Busy { .. } => "busy"@,
            AudioError::Gone { .. } => "gone"@,
            AudioError::Open { .. } => "open failed"@,
            AudioError::Io { .. } => "I/O error"@,
        }
    }

    /// The message that this error is reported with.
    pub open spec fn words(&self) -> Seq<char> {
        match self {
            AudioError::NoCard(why) => "no sound card: "@ + why@,
            AudioError::Busy { device, why } => device@ + " is busy: "@ + why@
                + ". Another client holds the card"@,
            AudioError::Gone { device, why } => device@ + " is gone: "@ + why@,
            AudioError::Open { device, why } => "cannot open "@ + device@ + ": "@ + why@,
            AudioError::Io { device, why } => device@ + ": "@ + why@,
        }
    }

    /// Whether the device is not there, as opposed to being there and not working.
    pub open spec fn says_absent(&self) -> bool {
        self is NoCard || self is Gone
    }

    /// The device that this is about.
    pub fn device(&self) -> (s: &str)
        ensures
            s@ == self.device_words(),
    {
        match self {
            AudioError::NoCard(_) => "(no card)",
            AudioError::Busy { device, .. } => device.as_str(),
            AudioError::Gone { device, .. } => device.as_str(),
            AudioError::Open { device, .. } => device.as_str(),
            AudioError::Io { device, .. } => device.as_str(),
        }
    }

    /// The coarse kind, by which together with the message a repetition is recognised.
    pub fn kind(&self) -> (s: &'static str)
        ensures
            s@ == self.kind_words(),
    {
        match self {
            AudioError::NoCard(_) => "no card",
            AudioError::Busy { .. } => "busy",
            AudioError::Gone { .. } => "gone",
            AudioError::Open { .. } => "open failed",
            AudioError::Io { .. } => "I/O error",
        }
    }

    /// The error in words.
    pub fn text(&self) -> (s: String)
        ensures
            s@ == self.words(),
    {
        match self {
            AudioError::NoCard(why) => "no sound card: ".to_owned().concat(why.as_str()),
            AudioError::Busy { device, why } => device.clone().concat(" is busy: ").concat(
                why.as_str(),
            ).concat(". Another client holds the card"),
            AudioError::Gone { device, why } => device.clone().concat(" is gone: ").concat(
                why.as_str(),
            ),
            AudioError::Open { device, why } => "cannot open ".to_owned().concat(
                device.as_str(),
            ).concat(": ").concat(why.as_str()),
            AudioError::Io { device, why } => device.clone().concat(": ").concat(why.as_str()),
        }
    }

    /// The same error once more.
    pub fn copy(&self) -> (r: AudioError)
        ensures
            r == *self,
    {
        match self {
            AudioError::NoCard(why) => AudioError::NoCard(why.clone()),
            AudioError::Busy { device, why } => AudioError::Busy {
                device: device.clone(),
                why: why.clone(),
            },
            AudioError::Gone { device, why } => AudioError::Gone {
                device: device.clone(),
                why: why.clone(),
            },
            AudioError::Open { device, why } => AudioError::Open {
                device: device.clone(),
                why: why.clone(),
            },
            AudioError::Io { device, why } => AudioError::Io {
                device: device.clone(),
                why: why.clone(),
            },
        }
    }
}

/// Every error about a device names it, and says more than that.
pub proof fn every_error_names_its_device(e: AudioError)
    requires
        !(e is NoCard),
    ensures
        text::mentions(e.words(), e.device_words()),
        e.words().len() > e.device_words().len(),
{
    reveal(text::mentions);
    reveal_strlit(" is busy: ");
    reveal_strlit(" is gone: ");
    reveal_strlit("cannot open ");
    reveal_strlit(": ");
    let d = e.device_words();
    if e is Open {
        assert(e.words().subrange(12, 12int + d.len()) =~= d);
    } else {
        assert(e.words().subrange(0, 0int + d.len()) =~= d);
    }
}

/// One half of the audio path.
#[derive(Clone, Copy, Debug, PartialEq, Eq, Structural)]
pub enum AudioSide {
    /// The device's sound card.
    Capture,
    /// The host's own output.
    Playback,
}

impl AudioSide {
    /// The two sides in the order in which everything reports them.
    pub const ALL: [AudioSide; 2] = [AudioSide::Capture, AudioSide::Playback];

    /// The place of a side in that order.
    pub fn index(self) -> (n: usize)
        ensures
            n == (if self == AudioSide::Capture {
                0usize
            } else {
                1usize
            }),
    {
        match self {
            AudioSide::Capture => 0,
            AudioSide::Playback => 1,
        }
    }

    /// The side in words.
    pub open spec fn words(self) -> Seq<char> {
        match self {
            AudioSide::Capture => "capture"@,
            AudioSide::Playback => "playback"@,
        }
    }

    /// The side in words.
    pub fn text(self) -> (s: String)
        ensures
            s@ == self.words(),
    {
        match self {
            AudioSide::Capture => "capture".to_owned(),
            AudioSide::Playback => "playback".to_owned(),
        }
    }
}

/// A condition of one side: what happened, and since when.
#[derive(Debug)]
pub struct AudioCondition {
    pub side: AudioSide,
    pub kind: &'static str,
    pub message: String,
    pub since: Nanos,
}

impl AudioCondition {
    /// Whether this is the condition that `error` makes.
    pub open spec fn is_about(&self, error: AudioError) -> bool {
        self.kind@ == error.kind_words() && self.message@ == error.words()
    }

    /// The side and the message.
    pub fn text(&self) -> (s: String)
        ensures
            s@ == self.side.words() + " "@ + self.message@,
    {
        self.side.text().concat(" ").concat(self.message.as_str())
    }

    /// The same condition once more.
    pub fn copy(&self) -> (r: AudioCondition)
        ensures
            r == *self,
    {
        AudioCondition {
            side: self.side,
            kind: self.kind,
            message: self.message.clone(),
            since: self.since,
        }
    }
}

/// The counters of the audio path.
#[derive(Clone, Copy, Debug, PartialEq, Eq, Structural)]
pub struct AudioCounters {
    /// Periods read from the card.
    pub periods_captured: u64,
    /// Captured periods written to the output.
    pub periods_played: u64,
    /// Silent periods written because there was nothing else.
    pub periods_silent: u64,
    /// Silent periods written because the output was muted.
    pub periods_muted: u64,
    /// What the ring has counted.
    pub counts: RingCounts,
    pub capture_opens: u64,
    pub playback_opens: u64,
    /// Conditions that were new when they were reported.
    pub conditions_logged: u64,
    /// Conditions that ended.
    pub recoveries_logged: u64,
}

/// `n` and one. A counter that is full starts over.
pub open spec fn next(n: u64) -> u64 {
    if n == u64::MAX {
        0
    } else {
        (n + 1) as u64
    }
}

/// The larger of two counts.
pub open spec fn most(a: u64, b: u64) -> u64 {
    if a >= b {
        a
    } else {
        b
    }
}

/// Counts that take over what they have not seen yet: each counter the larger of the two.
pub open spec fn merged(a: RingCounts, b: RingCounts) -> RingCounts {
    RingCounts {
        pushed: most(a.pushed, b.pushed),
        popped: most(a.popped, b.popped),
        overruns: most(a.overruns, b.overruns),
        underruns: most(a.underruns, b.underruns),
        drift_drops: most(a.drift_drops, b.drift_drops),
        drift_inserts: most(a.drift_inserts, b.drift_inserts),
    }
}

/// Whether no counter of `b` is behind that of `a`.
pub open spec fn not_behind(a: RingCounts, b: RingCounts) -> bool {
    &&& a.pushed <= b.pushed
    &&& a.popped <= b.popped
    &&& a.overruns <= b.overruns
    &&& a.underruns <= b.underruns
    &&& a.drift_drops <= b.drift_drops
    &&& a.drift_inserts <= b.drift_inserts
}

/// Two publications never walk a counter backwards, and it does not matter which one comes first.
pub proof fn publications_only_move_forward(held: RingCounts, a: RingCounts, b: RingCounts)
    ensures
        not_behind(held, merged(held, a)),
        not_behind(a, merged(held, a)),
        merged(merged(held, a), b) == merged(merged(held, b), a),
        merged(merged(held, a), a) == merged(held, a),
{
}

/// The larger of two counts.
fn larger(a: u64, b: u64) -> (r: u64)
    ensures
        r == most(a, b),
{
    if a >= b {
        a
    } else {
        b
    }
}

/// What one side has to show.
#[derive(Debug)]
pub struct SideState {
    /// What is wrong, if anything.
    pub condition: Option<AudioCondition>,
    /// Since when the side is opening, until its first period moves.
    pub opening: Option<Nanos>,
}

/// What the audio path has counted, and what each side has to show.
///
/// Each side has a place of its own. With one between them, each retry of one side would displace
/// the other's condition, and every retry would look new.
#[derive(Debug)]
pub struct AudioStats {
    pub counters: AudioCounters,
    pub capture: SideState,
    pub playback: SideState,
    /// How many milliseconds a side may be opening before that is a condition. Zero means for
    /// ever.
    pub opening_limit_ms: u64,
}

/// The message for an opening that does not come back.
pub open spec fn stuck_opening(limit_ms: u64) -> Seq<char> {
    "the open has not returned in "@ + text::duration(limit_ms as nat * 1_000_000)
        + ". It is inside a device call that has not come back; nothing is waiting on it and video and input are unaffected"@
}

/// Whether a condition says that the opening of `side` does not come back.
pub open spec fn shows_stuck(condition: Option<AudioCondition>, side: AudioSide, limit_ms: u64) -> bool {
    &&& condition is Some
    &&& condition->0.kind@ == "open failed"@
    &&& condition->0.message@ == "cannot open "@ + side.words() + ": "@ + stuck_opening(limit_ms)
}

impl Default for AudioStats {
    fn default() -> (r: AudioStats)
        ensures
            r.counters == (AudioCounters {
                periods_captured: 0,
                periods_played: 0,
                periods_silent: 0,
                periods_muted: 0,
                counts: RingCounts {
                    pushed: 0,
                    popped: 0,
                    overruns: 0,
                    underruns: 0,
                    drift_drops: 0,
                    drift_inserts: 0,
                },
                capture_opens: 0,
                playback_opens: 0,
                conditions_logged: 0,
                recoveries_logged: 0,
            }),
            r.capture == (SideState { condition: None, opening: None }),
            r.playback == (SideState { condition: None, opening: None }),
            r.opening_limit_ms == 0,
    {
        AudioStats {
            counters: AudioCounters {
                periods_captured: 0,
                periods_played: 0,
                periods_silent: 0,
                periods_muted: 0,
                counts: RingCounts::default(),
                capture_opens: 0,
                playback_opens: 0,
                conditions_logged: 0,
                recoveries_logged: 0,
            },
            capture: SideState { condition: None, opening: None },
            playback: SideState { condition: None, opening: None },
            opening_limit_ms: 0,
        }
    }
}

impl AudioStats {
    /// What `side` has to show.
    pub open spec fn of(&self, side: AudioSide) -> SideState {
        match side {
            AudioSide::Capture => self.capture,
            AudioSide::Playback => self.playback,
        }
    }

    /// The same with another state of `side`.
    pub open spec fn with(self, side: AudioSide, state: SideState) -> AudioStats {
        match side {
            AudioSide::Capture => AudioStats { capture: state, ..self },
            AudioSide::Playback => AudioStats { playback: state, ..self },
        }
    }

    /// Whether `error` is what `side` is already known to suffer from.
    pub open spec fn is_known(&self, side: AudioSide, error: AudioError) -> bool {
        self.of(side).condition matches Some(c) && c.is_about(error)
    }

    /// Whether `self` is `was` after `error` was reported on `side` at `now`.
    pub open spec fn is_report_of(
        &self,
        was: AudioStats,
        side: AudioSide,
        error: AudioError,
        now: Nanos,
    ) -> bool {
        if was.is_known(side, error) {
            *self == was
        } else {
            &&& *self == (AudioStats {
                counters: AudioCounters {
                    conditions_logged: next(was.counters.conditions_logged),
                    ..was.counters
                },
                ..was
            }).with(
                side,
                SideState { condition: self.of(side).condition, opening: was.of(side).opening },
            )
            &&& self.of(side).condition is Some
            &&& self.of(side).condition->0.side == side
            &&& self.of(side).condition->0.is_about(error)
            &&& self.of(side).condition->0.since == now
        }
    }

    /// Records a condition on `side`. Says whether it is new there: by kind and by message. The
    /// other side is neither consulted nor disturbed.
    pub fn report(&mut self, side: AudioSide, error: &AudioError, now: Nanos) -> (new: bool)
        ensures
            new == !old(self).is_known(side, *error),
            final(self).is_report_of(*old(self), side, *error, now),
    {
        let message = error.text();
        let kind = error.kind();
        let same = match side {
            AudioSide::Capture => AudioStats::matches_condition(
                &self.capture.condition,
                kind,
                &message,
            ),
            AudioSide::Playback => AudioStats::matches_condition(
                &self.playback.condition,
                kind,
                &message,
            ),
        };
        if same {
            return false;
        }
        let condition = Some(AudioCondition { side, kind, message, since: now });
        match side {
            AudioSide::Capture => {
                self.capture.condition = condition;
            },
            AudioSide::Playback => {
                self.playback.condition = condition;
            },
        }
        self.counters.conditions_logged = self.counters.conditions_logged.wrapping_add(1);
        true
    }

    /// Whether a condition has this kind and this message.
    fn matches_condition(condition: &Option<AudioCondition>, kind: &str, message: &String) -> (r:
        bool)
        ensures
            r == (condition matches Some(c) && c.kind@ == kind@ && c.message@ == message@),
    {
        match condition {
            Some(c) => text::same(c.kind, kind) && c.message == *message,
            None => false,
        }
    }

    /// Clears the condition of `side`, because a period has moved there. Says whether there was
    /// one.
    pub fn recovered(&mut self, side: AudioSide) -> (had: bool)
        ensures
            had == (old(self).of(side).condition is Some),
            *final(self) == (AudioStats {
                counters: AudioCounters {
                    recoveries_logged: if had {
                        next(old(self).counters.recoveries_logged)
                    } else {
                        old(self).counters.recoveries_logged
                    },
                    ..old(self).counters
                },
                ..*old(self)
            }).with(side, SideState { condition: None, opening: old(self).of(side).opening }),
    {
        let mut taken = None;
        match side {
            AudioSide::Capture => {
                core::mem::swap(&mut taken, &mut self.capture.condition);
            },
            AudioSide::Playback => {
                core::mem::swap(&mut taken, &mut self.playback.condition);
            },
        }
        if taken.is_some() {
            self.counters.recoveries_logged = self.counters.recoveries_logged.wrapping_add(1);
            return true;
        }
        false
    }

    /// The condition to show: that of the capture side, if it has one.
    pub open spec fn shown(&self) -> Option<AudioCondition> {
        if self.capture.condition is Some {
            self.capture.condition
        } else {
            self.playback.condition
        }
    }

    /// The condition to show, if any. Where both sides have one it is that of the capture side,
    /// whichever of them retried last.
    pub fn condition(&self) -> (r: Option<AudioCondition>)
        ensures
            r == self.shown(),
    {
        match &self.capture.condition {
            Some(c) => Some(c.copy()),
            None => match &self.playback.condition {
                Some(c) => Some(c.copy()),
                None => None,
            },
        }
    }

    /// The condition of one side.
    pub fn condition_of(&self, side: AudioSide) -> (r: Option<AudioCondition>)
        ensures
            r == self.of(side).condition,
    {
        let held = match side {
            AudioSide::Capture => &self.capture.condition,
            AudioSide::Playback => &self.playback.condition,
        };
        match held {
            Some(c) => Some(c.copy()),
            None => None,
        }
    }

    /// A limit in whole milliseconds, as far as they can be counted.
    pub open spec fn limit_in_ms(limit: Nanos) -> u64 {
        if limit / MILLISECOND <= u64::MAX {
            (limit / MILLISECOND) as u64
        } else {
            u64::MAX
        }
    }

    /// Sets how long a side may be opening before that is a condition.
    pub fn set_opening_limit(&mut self, limit: Nanos)
        ensures
            *final(self) == (AudioStats {
                opening_limit_ms: if limit / MILLISECOND <= u64::MAX {
                    (limit / MILLISECOND) as u64
                } else {
                    u64::MAX
                },
                ..*old(self)
            }),
            final(self).opening_limit_ms == AudioStats::limit_in_ms(limit),
    {
        let ms: Nanos = limit / MILLISECOND;
        self.opening_limit_ms = if ms <= 0xffff_ffff_ffff_ffff {
            ms as u64
        } else {
            0xffff_ffff_ffff_ffff
        };
    }

    /// Marks that `side` is about to open its device. A thread that is stuck cannot report
    /// itself, so it leaves the time behind first.
    pub fn opening(&mut self, side: AudioSide, now: Nanos)
        ensures
            *final(self) == old(self).with(
                side,
                SideState { opening: Some(now), ..old(self).of(side) },
            ),
    {
        match side {
            AudioSide::Capture => {
                self.capture.opening = Some(now);
            },
            AudioSide::Playback => {
                self.playback.opening = Some(now);
            },
        }
    }

    /// Marks that `side` is not opening any more: a period has moved, or the opening failed.
    pub fn opened(&mut self, side: AudioSide)
        ensures
            *final(self) == old(self).with(
                side,
                SideState { opening: None, ..old(self).of(side) },
            ),
    {
        match side {
            AudioSide::Capture => {
                self.capture.opening = None;
            },
            AudioSide::Playback => {
                self.playback.opening = None;
            },
        }
    }

    /// Which sides are opening, capture first.
    pub fn opening_sides(&self) -> (r: [bool; 2])
        ensures
            r@ == seq![self.capture.opening is Some, self.playback.opening is Some],
    {
        let r = [self.capture.opening.is_some(), self.playback.opening.is_some()];
        assert(r@ =~= seq![self.capture.opening is Some, self.playback.opening is Some]);
        r
    }

    /// Whether `side` has been opening for longer than it may.
    pub open spec fn is_overdue(&self, side: AudioSide, now: Nanos) -> bool {
        self.opening_limit_ms != 0 && (self.of(side).opening matches Some(since) && clock::since(
            now,
            since,
        ) >= self.opening_limit_ms * 1_000_000)
    }

    /// Whether `error` is what an overdue opening of `side` is reported as.
    pub open spec fn is_stuck_error(&self, side: AudioSide, error: AudioError) -> bool {
        &&& error is Open
        &&& error->Open_device@ == side.words()
        &&& error->Open_why@ == stuck_opening(self.opening_limit_ms)
    }

    /// Whether a look at `now` finds an opening of `side` overdue that is not known to be.
    pub open spec fn is_newly_stuck(&self, side: AudioSide, now: Nanos) -> bool {
        self.is_overdue(side, now) && !shows_stuck(
            self.of(side).condition,
            side,
            self.opening_limit_ms,
        )
    }

    /// Whether `self` is `was` after a look at `side` at `now`: an overdue opening was reported,
    /// and nothing else has changed.
    pub open spec fn is_supervised(&self, was: AudioStats, side: AudioSide, now: Nanos) -> bool {
        if was.is_overdue(side, now) {
            exists|e: AudioError|
                was.is_stuck_error(side, e) && #[trigger] self.is_report_of(was, side, e, now)
        } else {
            *self == was
        }
    }

    /// Whether `self` is `was` after a look at both sides at `now`.
    pub open spec fn is_supervision_of(&self, was: AudioStats, now: Nanos) -> bool {
        exists|mid: AudioStats| #[trigger]
            mid.is_supervised(was, AudioSide::Capture, now) && self.is_supervised(
                mid,
                AudioSide::Playback,
                now,
            )
    }

    /// Turns an opening of `side` that has not come back in time into a condition, and says whether
    /// it is a new one. The message names the limit and not the time that has passed, so that it is
    /// the same every time.
    fn supervise_side(&mut self, side: AudioSide, now: Nanos) -> (new: bool)
        ensures
            final(self).is_supervised(*old(self), side, now),
            new == old(self).is_newly_stuck(side, now),
    {
        let limit: Nanos = self.opening_limit_ms as u128 * MILLISECOND;
        if limit == 0 {
            return false;
        }
        let since = match side {
            AudioSide::Capture => self.capture.opening,
            AudioSide::Playback => self.playback.opening,
        };
        if let Some(since) = since {
            if clock::elapsed(now, since) >= limit {
                let mut why = "the open has not returned in ".to_owned();
                text::push_duration(&mut why, limit);
                why.append(
                    ". It is inside a device call that has not come back; nothing is waiting on it and video and input are unaffected",
                );
                let error = AudioError::Open { device: side.text(), why };
                assert(self.is_stuck_error(side, error));
                return self.report(side, &error, now);
            }
        }
        false
    }

    /// Turns openings that have not come back in time into conditions, and says on which sides,
    /// capture first, the condition is new. Whoever shows the audio state calls this: the thread
    /// that is stuck cannot.
    pub fn supervise_opening(&mut self, now: Nanos) -> (new: [bool; 2])
        ensures
            final(self).is_supervision_of(*old(self), now),
            new@ == seq![
                old(self).is_newly_stuck(AudioSide::Capture, now),
                old(self).is_newly_stuck(AudioSide::Playback, now),
            ],
    {
        let ghost was = *self;
        let capture = self.supervise_side(AudioSide::Capture, now);
        let ghost mid = *self;
        let playback = self.supervise_side(AudioSide::Playback, now);
        assert(mid.is_supervised(was, AudioSide::Capture, now));
        let new = [capture, playback];
        assert(new@ =~= seq![capture, playback]);
        new
    }

    /// The counters and what is to be shown, with overdue openings turned into conditions first.
    pub fn snapshot(&mut self, now: Nanos) -> (r: AudioSnapshot)
        ensures
            final(self).is_supervision_of(*old(self), now),
            r.periods_captured == final(self).counters.periods_captured,
            r.periods_played == final(self).counters.periods_played,
            r.periods_silent == final(self).counters.periods_silent,
            r.periods_muted == final(self).counters.periods_muted,
            r.counts == final(self).counters.counts,
            r.capture_opens == final(self).counters.capture_opens,
            r.playback_opens == final(self).counters.playback_opens,
            r.conditions_logged == final(self).counters.conditions_logged,
            r.recoveries_logged == final(self).counters.recoveries_logged,
            r.condition == final(self).shown(),
            r.opening@ == seq![
                old(self).capture.opening is Some,
                old(self).playback.opening is Some,
            ],
    {
        let _ = self.supervise_opening(now);
        AudioSnapshot {
            periods_captured: self.counters.periods_captured,
            periods_played: self.counters.periods_played,
            periods_silent: self.counters.periods_silent,
            periods_muted: self.counters.periods_muted,
            counts: self.counters.counts,
            capture_opens: self.counters.capture_opens,
            playback_opens: self.counters.playback_opens,
            conditions_logged: self.counters.conditions_logged,
            recoveries_logged: self.counters.recoveries_logged,
            condition: self.condition(),
            opening: self.opening_sides(),
        }
    }

    /// Takes over what the ring has counted. Both sides publish it, and a publication that comes
    /// late moves no counter backwards.
    pub fn absorb(&mut self, counts: RingCounts)
        ensures
            *final(self) == (AudioStats {
                counters: AudioCounters {
                    counts: merged(old(self).counters.counts, counts),
                    ..old(self).counters
                },
                ..*old(self)
            }),
    {
        let held = self.counters.counts;
        self.counters.counts = RingCounts {
            pushed: larger(held.pushed, counts.pushed),
            popped: larger(held.popped, counts.popped),
            overruns: larger(held.overruns, counts.overruns),
            underruns: larger(held.underruns, counts.underruns),
            drift_drops: larger(held.drift_drops, counts.drift_drops),
            drift_inserts: larger(held.drift_inserts, counts.drift_inserts),
        };
    }
}

/// The same failure is a condition once, however often it happens: after a report the same error
/// is known on that side, and reporting it again changes nothing. The other side keeps what it
/// had.
pub proof fn a_repeated_failure_is_one_condition(
    was: AudioStats,
    after: AudioStats,
    again: AudioStats,
    side: AudioSide,
    other: AudioSide,
    error: AudioError,
    now: Nanos,
    later: Nanos,
)
    requires
        after.is_report_of(was, side, error, now),
        again.is_report_of(after, side, error, later),
        other != side,
    ensures
        after.is_known(side, error),
        again == after,
        after.of(other) == was.of(other),
{
}

/// An overdue opening becomes a condition of its own side, and disturbs nothing else. It is the one
/// condition however often it is looked at; a new one is of that side, begins at the look and is
/// counted once. A side that is not overdue keeps what it had.
pub proof fn an_overdue_opening_is_one_condition(was: AudioStats, after: AudioStats, now: Nanos)
    requires
        after.is_supervision_of(was, now),
    ensures
        after.counters == (AudioCounters {
            conditions_logged: {
                let one = if was.is_newly_stuck(AudioSide::Capture, now) {
                    next(was.counters.conditions_logged)
                } else {
                    was.counters.conditions_logged
                };
                if was.is_newly_stuck(AudioSide::Playback, now) {
                    next(one)
                } else {
                    one
                }
            },
            ..was.counters
        }),
        after.opening_limit_ms == was.opening_limit_ms,
        forall|side: AudioSide| #[trigger]
            after.of(side).opening == was.of(side).opening,
        forall|side: AudioSide|
            !#[trigger] was.is_newly_stuck(side, now) ==> after.of(side) == was.of(side),
        forall|side: AudioSide| #[trigger]
            was.is_newly_stuck(side, now) ==> shows_stuck(
                after.of(side).condition,
                side,
                was.opening_limit_ms,
            ) && after.of(side).condition->0.side == side && after.of(side).condition->0.since
                == now,
{
    let mid = choose|mid: AudioStats| #[trigger]
        mid.is_supervised(was, AudioSide::Capture, now) && after.is_supervised(
            mid,
            AudioSide::Playback,
            now,
        );
    assert(mid.is_supervised(was, AudioSide::Capture, now));
    assert(mid.is_overdue(AudioSide::Playback, now) == was.is_overdue(AudioSide::Playback, now));
}

/// A later look that finds no further opening overdue changes nothing: the conditions stay, since
/// when they are included, and nothing more is counted.
pub proof fn a_further_look_changes_nothing(
    was: AudioStats,
    after: AudioStats,
    again: AudioStats,
    now: Nanos,
    later: Nanos,
)
    requires
        after.is_supervision_of(was, now),
        again.is_supervision_of(after, later),
        was.is_overdue(AudioSide::Capture, later) ==> was.is_overdue(AudioSide::Capture, now),
        was.is_overdue(AudioSide::Playback, later) ==> was.is_overdue(AudioSide::Playback, now),
    ensures
        again == after,
{
}

/// Without a limit no opening is ever overdue, and a look changes nothing.
pub proof fn without_a_limit_nothing_is_overdue(was: AudioStats, after: AudioStats, now: Nanos)
    requires
        was.opening_limit_ms == 0,
        after.is_supervision_of(was, now),
    ensures
        after == was,
{
}

/// A copy of [`AudioStats`] at one moment.
#[derive(Debug)]
pub struct AudioSnapshot {
    pub periods_captured: u64,
    pub periods_played: u64,
    pub periods_silent: u64,
    pub periods_muted: u64,
    pub counts: RingCounts,
    pub capture_opens: u64,
    pub playback_opens: u64,
    pub conditions_logged: u64,
    pub recoveries_logged: u64,
    pub condition: Option<AudioCondition>,
    /// Which sides are opening, capture first.
    pub opening: [bool; 2],
}

impl AudioSnapshot {
    /// The side to show as opening, if any, capture first. A condition is the more specific
    /// statement and is shown instead.
    pub fn opening_side(&self) -> (r: Option<AudioSide>)
        ensures
            r == (if self.condition is Some {
                None
            } else if self.opening@[0] {
                Some(AudioSide::Capture)
            } else if self.opening@[1] {
                Some(AudioSide::Playback)
            } else {
                None
            }),
    {
        if self.condition.is_some() {
            return None;
        }
        if self.opening[0] {
            return Some(AudioSide::Capture);
        }
        if self.opening[1] {
            return Some(AudioSide::Playback);
        }
        None
    }
}

/// Periods in the device buffer of each side.
pub const DEVICE_PERIODS: usize = 4;

/// The settings of the audio path.
#[derive(Clone, Copy, Debug, PartialEq, Eq, Structural)]
pub struct AudioConfig {
    pub ring: RingConfig,
    /// Periods in the device buffer of each side.
    pub device_periods: usize,
    /// How long to wait before a failed opening is tried again.
    pub reopen_backoff: Nanos,
    /// The longest such wait while a device stays absent.
    pub reopen_backoff_cap: Nanos,
    /// How long stopping waits for a thread before it is left alone.
    pub stop_deadline: Nanos,
    /// Periods to accumulate before playback begins. More than the device buffer takes without
    /// blocking, or the start would be counted as drift.
    pub prefill_periods: usize,
}

impl AudioConfig {
    /// The ring can be made, and its depth told.
    pub open spec fn well_formed(&self) -> bool {
        &&& self.ring.well_formed()
        &&& self.ring.periods * 4 <= u32::MAX
        &&& self.ring.periods as nat * self.ring.period_frames as nat * 1_000_000_000 <= u64::MAX
    }

    /// How long playback waits for a period before it plays silence: one period, and at least
    /// three milliseconds.
    pub open spec fn patience(&self) -> nat {
        let period = self.ring.span() / (if self.ring.periods >= 1 {
            self.ring.periods as nat
        } else {
            1
        });
        if period >= 3_000_000 {
            period
        } else {
            3_000_000
        }
    }
}

impl Default for AudioConfig {
    fn default() -> (r: AudioConfig)
        ensures
            r.well_formed(),
            r.ring.periods == 8,
            r.ring.period_frames == 480,
            r.device_periods == 4,
            r.reopen_backoff == 500 * MILLISECOND,
            r.reopen_backoff_cap == 10 * SECOND,
            r.stop_deadline == 250 * MILLISECOND,
            r.prefill_periods == 6,
            r.device_periods < r.prefill_periods < r.ring.periods,
    {
        let ring = RingConfig::default();
        let wanted: usize = DEVICE_PERIODS + 2;
        let most: usize = ring.periods.saturating_sub(1);
        AudioConfig {
            ring,
            device_periods: DEVICE_PERIODS,
            reopen_backoff: 500 * MILLISECOND,
            reopen_backoff_cap: 10 * SECOND,
            stop_deadline: 250 * MILLISECOND,
            prefill_periods: if wanted <= most {
                wanted
            } else {
                most
            },
        }
    }
}

/// How often the wait was doubled after `absences` absences in a row.
pub open spec fn absence_doublings(absences: u32) -> nat {
    if absences <= 1 {
        0
    } else if absences - 1 <= 31 {
        (absences - 1) as nat
    } else {
        31
    }
}

/// The wait before the next opening.
pub open spec fn reopen_wait(base: Nanos, cap: Nanos, absences: u32) -> Nanos {
    clock::least(clock::product(base, clock::doublings(absence_doublings(absences))), cap)
}

/// How long to wait before the next opening, after `absences` openings in a row that found no
/// device: `base` for the first, then twice as long each time, and never more than `cap`.
pub fn reopen_delay(base: Nanos, cap: Nanos, absences: u32) -> (d: Nanos)
    ensures
        d == reopen_wait(base, cap, absences),
{
    let doublings: u32 = if absences <= 1 {
        0
    } else if absences - 1 <= 31 {
        absences - 1
    } else {
        31
    };
    let factor: u32 = clock::power_of_two(doublings);
    clock::shorter(clock::scaled(base, factor), cap)
}

/// The wait never shrinks while a device stays absent, and never exceeds its cap.
pub proof fn absence_never_shortens_the_wait(base: Nanos, cap: Nanos, fewer: u32, more: u32)
    requires
        fewer <= more,
    ensures
        reopen_wait(base, cap, fewer) <= reopen_wait(base, cap, more) <= cap,
{
    clock::doubling_more_is_longer(base, absence_doublings(fewer), absence_doublings(more));
}

/// Whether a failure means that the device is not there. Only that makes the wait longer.
pub fn is_absence(error: &AudioError) -> (r: bool)
    ensures
        r == error.says_absent(),
{
    match error {
        AudioError::NoCard(_) => true,
        AudioError::Gone { .. } => true,
        _ => false,
    }
}

} // verus!
