//! The two audio threads, as state machines: what each does next, what it counts and what it
//! reports. The devices, the sleeping and the waiting belong to the caller.

use vstd::prelude::*;

use super::ring;
use super::{
    is_absence, reopen_delay, AudioConfig, AudioCounters, AudioError, AudioSide,
    AudioStats, PeriodRing, PopOutcome, PushOutcome, RingConfig, RingCounts, SideState,
};
use crate::clock;
use crate::clock::Nanos;
use crate::count;

verus! {

/// The ring between the two threads, and whether it was closed for good.
///
/// It stands behind one lock that is never held across a device call, so that a stalled card on
/// one side cannot block the other.
#[derive(Debug)]
pub struct SharedRing {
    pub ring: PeriodRing,
    pub closed: bool,
}

/// What a playback thread that wants a period gets.
#[derive(Debug)]
pub enum RingPop {
    /// Nothing yet: wait for a push, and ask again.
    Wait,
    /// The ring was closed.
    Closed,
    /// A period, where it comes from, and the counters.
    Period(Vec<i16>, PopOutcome, RingCounts),
}

impl SharedRing {
    /// The ring is one, and its counters have room.
    pub open spec fn well_formed(&self) -> bool {
        self.ring.well_formed() && self.ring@.counts.has_room()
    }

    /// An open ring of this shape, empty, with the drift policy of the shape and nothing counted.
    pub fn new(config: RingConfig) -> (r: SharedRing)
        requires
            config.well_formed(),
            config.periods * 4 <= u32::MAX,
        ensures
            r.well_formed(),
            !r.closed,
            r.ring@ == ring::fresh(config),
    {
        SharedRing { ring: PeriodRing::new(config), closed: false }
    }

    /// Queues a period, and hands out the counters.
    pub fn push(&mut self, period: Vec<i16>) -> (r: (PushOutcome, RingCounts))
        requires
            old(self).well_formed(),
            period@.len() == old(self).ring@.config.samples(),
        ensures
            final(self).ring.well_formed(),
            final(self).closed == old(self).closed,
            (final(self).ring@, r.0) == old(self).ring@.push(period@),
            r.1 == final(self).ring@.counts,
    {
        let outcome = self.ring.push(period);
        (outcome, self.ring.counts())
    }

    /// Whether a thread that wants a period gets one: with nothing in the ring, only one that has
    /// waited for as long as it will does, and none does once the ring is closed.
    pub open spec fn hands_out(&self, waited: bool) -> bool {
        self.ring@.queue.len() > 0 || (waited && !self.closed)
    }

    /// The level at which a wait for `periods` to accumulate is over, if it is.
    pub open spec fn primed(&self, periods: nat, waited: bool) -> Option<nat> {
        if self.ring@.queue.len() < periods && !self.closed && !waited {
            None
        } else {
            Some(self.ring@.queue.len())
        }
    }

    /// One look at the ring by a thread that wants a period. `waited` says that it has waited for
    /// as long as it will.
    ///
    /// A ring that stays empty hands out silence then, since the device must be fed. Only a ring
    /// that is closed and empty hands out nothing.
    pub fn pop(&mut self, waited: bool) -> (r: RingPop)
        requires
            old(self).well_formed(),
        ensures
            final(self).ring.well_formed(),
            final(self).closed == old(self).closed,
            if old(self).ring@.queue.len() == 0 && old(self).closed {
                r == RingPop::Closed && final(self).ring@ == old(self).ring@
            } else if old(self).ring@.queue.len() == 0 && !waited {
                r == RingPop::Wait && final(self).ring@ == old(self).ring@
            } else {
                &&& r is Period
                &&& (final(self).ring@, r->Period_0@, r->Period_1) == old(self).ring@.pop()
                &&& r->Period_0@.len() == old(self).ring@.config.samples()
                &&& r->Period_2 == final(self).ring@.counts
            },
            r is Period <==> old(self).hands_out(waited),
    {
        if self.ring.is_empty() {
            if self.closed {
                return RingPop::Closed;
            }
            if !waited {
                return RingPop::Wait;
            }
        }
        let (period, outcome) = self.ring.pop();
        let counts = self.ring.counts();
        RingPop::Period(period, outcome, counts)
    }

    /// One look at the ring by a thread that waits for `periods` to accumulate: the level at which
    /// the wait is over, or `None` to go on waiting.
    pub fn prime(&self, periods: usize, waited: bool) -> (r: Option<usize>)
        ensures
            r == (if self.ring@.queue.len() < periods && !self.closed && !waited {
                None
            } else {
                Some(self.ring@.queue.len() as usize)
            }),
            r is Some <==> self.primed(periods as nat, waited) is Some,
            r matches Some(level) ==> level == self.primed(periods as nat, waited)->0,
    {
        let level: usize = self.ring.len();
        if level < periods && !self.closed && !waited {
            None
        } else {
            Some(level)
        }
    }

    /// Closes the ring. What is in it can still be played.
    pub fn close(&mut self)
        ensures
            final(self).closed,
            final(self).ring == old(self).ring,
    {
        self.closed = true;
    }
}

/// What one side remembers: how often in a row it found no device, and whether a period has moved
/// since it opened one.
#[derive(Clone, Copy, Debug, PartialEq, Eq, Structural)]
pub struct Worker {
    pub absences: u32,
    pub working: bool,
}

/// What a side does next.
#[derive(Debug)]
pub enum WorkerCall {
    /// Open the device.
    Open,
    /// Read one period.
    Read,
    /// Wait until this many periods have accumulated, for at most this long.
    Prime(usize, Nanos),
    /// Take a period from the ring, and wait for at most this long.
    Pop(Nanos),
    /// Write one period.
    Write(Vec<i16>),
    /// Drop the device, and sleep where there is a length of time. Then begin again.
    Close(Option<Nanos>),
    /// Sleep without a device. Then begin again.
    Sleep(Nanos),
    /// The thread is done.
    Finish,
}

/// What there is to say of a step, once.
#[derive(Clone, Copy, Debug, PartialEq, Eq, Structural)]
pub enum Remark {
    Nothing,
    /// The side has a condition that it did not have before.
    Failed,
    /// The condition of the side is over.
    Recovered,
}

/// A remark on a failure: one that is known is not worth saying again.
pub open spec fn remark_on(stats: AudioStats, side: AudioSide, e: AudioError) -> Remark {
    if stats.is_known(side, e) {
        Remark::Nothing
    } else {
        Remark::Failed
    }
}

/// A remark on a period that has moved on a side that was `working` before or not.
pub open spec fn remark_on_move(stats: AudioStats, working: bool, side: AudioSide) -> Remark {
    if !working && stats.of(side).condition is Some {
        Remark::Recovered
    } else {
        Remark::Nothing
    }
}

/// What happened to the capture side.
#[derive(Debug)]
pub enum CaptureEvent {
    Begin,
    Opened(Result<(), AudioError>),
    Read(Result<Vec<i16>, AudioError>),
}

/// What happened to the playback side.
#[derive(Debug)]
pub enum PlaybackEvent {
    Begin,
    Opened(Result<(), AudioError>),
    /// The wait for the prefill is over.
    Primed,
    /// The ring was closed.
    Closed,
    /// A period came out of the ring.
    Popped(Vec<i16>, PopOutcome, RingCounts),
    /// A period was written, or not.
    Written(Result<(), AudioError>),
}

fn failure_remark(new: bool) -> (r: Remark)
    ensures
        r == if new {
            Remark::Failed
        } else {
            Remark::Nothing
        },
{
    if new {
        Remark::Failed
    } else {
        Remark::Nothing
    }
}

impl Worker {
    /// A side that has not opened anything yet.
    pub fn new() -> (w: Worker)
        ensures
            w.absences == 0,
            !w.working,
    {
        Worker { absences: 0, working: false }
    }

    /// The side after a failed opening.
    pub open spec fn after_failure(self, e: AudioError) -> Worker {
        Worker {
            absences: if e.says_absent() {
                count::one_more(self.absences)
            } else {
                self.absences
            },
            ..self
        }
    }

    /// Begins an attempt: marks the side as opening before the call that can block.
    fn begin(&mut self, side: AudioSide, stop: bool, stats: &mut AudioStats, now: Nanos) -> (r:
        WorkerCall)
        ensures
            *final(self) == *old(self),
            if stop {
                r == WorkerCall::Finish && *final(stats) == *old(stats)
            } else {
                &&& r == WorkerCall::Open
                &&& *final(stats) == old(stats).with(
                    side,
                    SideState { opening: Some(now), ..old(stats).of(side) },
                )
            },
    {
        if stop {
            return WorkerCall::Finish;
        }
        stats.opening(side, now);
        WorkerCall::Open
    }

    /// Takes a failed opening. Only an absent device makes the next wait longer.
    fn open_failed(
        &mut self,
        side: AudioSide,
        e: &AudioError,
        stats: &mut AudioStats,
        config: &AudioConfig,
        now: Nanos,
    ) -> (r: (WorkerCall, Remark))
        ensures
            *final(self) == old(self).after_failure(*e),
            r.1 == remark_on(*old(stats), side, *e),
            r.0 == WorkerCall::Sleep(
                super::reopen_wait(
                    config.reopen_backoff,
                    config.reopen_backoff_cap,
                    final(self).absences,
                ),
            ),
            final(stats).is_report_of(
                old(stats).with(side, SideState { opening: None, ..old(stats).of(side) }),
                side,
                *e,
                now,
            ),
    {
        stats.opened(side);
        if is_absence(e) {
            self.absences = self.absences.saturating_add(1);
        }
        let delay: Nanos = reopen_delay(
            config.reopen_backoff,
            config.reopen_backoff_cap,
            self.absences,
        );
        let new = stats.report(side, e, now);
        (WorkerCall::Sleep(delay), failure_remark(new))
    }

    /// Takes a failed read or write. One that failed because the thread is to stop is no
    /// condition.
    fn device_failed(
        &mut self,
        side: AudioSide,
        e: &AudioError,
        stop: bool,
        stats: &mut AudioStats,
        config: &AudioConfig,
        now: Nanos,
    ) -> (r: (WorkerCall, Remark))
        ensures
            *final(self) == *old(self),
            if stop {
                &&& r == (WorkerCall::Close(None), Remark::Nothing)
                &&& *final(stats) == *old(stats)
            } else {
                &&& r.0 == WorkerCall::Close(Some(config.reopen_backoff))
                &&& r.1 == remark_on(*old(stats), side, *e)
                &&& final(stats).is_report_of(
                    old(stats).with(side, SideState { opening: None, ..old(stats).of(side) }),
                    side,
                    *e,
                    now,
                )
            },
    {
        if stop {
            return (WorkerCall::Close(None), Remark::Nothing);
        }
        stats.opened(side);
        let new = stats.report(side, e, now);
        (WorkerCall::Close(Some(config.reopen_backoff)), failure_remark(new))
    }

    /// Notes that a period has moved. The first one after an opening is the recovery, and not the
    /// opening itself: a half-dead device opens every time.
    fn moved(&mut self, side: AudioSide, stats: &mut AudioStats) -> (r: Remark)
        ensures
            r == remark_on_move(*old(stats), old(self).working, side),
            final(self).absences == old(self).absences,
            final(self).working,
            *final(stats) == after_move(*old(stats), old(self).working, side),
    {
        if !self.working {
            self.working = true;
            stats.opened(side);
            if stats.recovered(side) {
                return Remark::Recovered;
            }
        }
        Remark::Nothing
    }
}

/// The state after a period has moved on `side`, which was `working` before or not.
pub open spec fn after_move(stats: AudioStats, working: bool, side: AudioSide) -> AudioStats {
    if working {
        stats
    } else {
        (AudioStats {
            counters: AudioCounters {
                recoveries_logged: if stats.of(side).condition is Some {
                    super::next(stats.counters.recoveries_logged)
                } else {
                    stats.counters.recoveries_logged
                },
                ..stats.counters
            },
            ..stats
        }).with(side, SideState { condition: None, opening: None })
    }
}

/// What the capture side does after an event.
pub open spec fn capture_call(
    event: CaptureEvent,
    stop: bool,
    worker: Worker,
    config: AudioConfig,
) -> WorkerCall {
    match event {
        CaptureEvent::Begin => if stop {
            WorkerCall::Finish
        } else {
            WorkerCall::Open
        },
        CaptureEvent::Opened(Err(e)) => WorkerCall::Sleep(
            super::reopen_wait(
                config.reopen_backoff,
                config.reopen_backoff_cap,
                worker.after_failure(e).absences,
            ),
        ),
        CaptureEvent::Opened(Ok(())) | CaptureEvent::Read(Ok(_)) => if stop {
            WorkerCall::Close(None)
        } else {
            WorkerCall::Read
        },
        CaptureEvent::Read(Err(_)) => WorkerCall::Close(
            if stop {
                None
            } else {
                Some(config.reopen_backoff)
            },
        ),
    }
}

/// What the playback side does after an event other than a period from the ring.
pub open spec fn playback_call(
    event: PlaybackEvent,
    stop: bool,
    worker: Worker,
    config: AudioConfig,
) -> WorkerCall {
    match event {
        PlaybackEvent::Begin => if stop {
            WorkerCall::Finish
        } else {
            WorkerCall::Open
        },
        PlaybackEvent::Opened(Err(e)) => WorkerCall::Sleep(
            super::reopen_wait(
                config.reopen_backoff,
                config.reopen_backoff_cap,
                worker.after_failure(e).absences,
            ),
        ),
        PlaybackEvent::Closed | PlaybackEvent::Written(Err(_)) => WorkerCall::Close(
            if stop {
                None
            } else {
                Some(config.reopen_backoff)
            },
        ),
        _ => if event is Opened && config.prefill_periods > 0 {
            WorkerCall::Prime(config.prefill_periods, (config.ring.span() * 4) as Nanos)
        } else if stop {
            WorkerCall::Close(None)
        } else {
            WorkerCall::Pop(config.patience() as Nanos)
        },
    }
}

/// What is written for a period that came out of the ring.
pub open spec fn played(period: Seq<i16>, muted: bool, samples: nat) -> Seq<i16> {
    if muted {
        ring::silent(samples)
    } else {
        period
    }
}

/// One step of the capture side: open, read periods into the ring, and on any failure report once
/// and open again.
pub fn capture_loop(
    worker: &mut Worker,
    event: CaptureEvent,
    stop: bool,
    shared: &mut SharedRing,
    stats: &mut AudioStats,
    config: &AudioConfig,
    now: Nanos,
) -> (r: (WorkerCall, Remark))
    requires
        old(shared).well_formed(),
        event matches CaptureEvent::Read(Ok(period)) ==> period@.len()
            == old(shared).ring@.config.samples(),
    ensures
        final(shared).ring.well_formed(),
        final(shared).closed == old(shared).closed,
        !(event matches CaptureEvent::Read(Ok(_))) ==> final(shared).ring@ == old(shared).ring@,
        match event {
            CaptureEvent::Begin => {
                &&& *final(worker) == *old(worker)
                &&& if stop {
                    r == (WorkerCall::Finish, Remark::Nothing) && *final(stats) == *old(stats)
                } else {
                    &&& r == (WorkerCall::Open, Remark::Nothing)
                    &&& *final(stats) == old(stats).with(
                        AudioSide::Capture,
                        SideState { opening: Some(now), ..old(stats).capture },
                    )
                }
            },
            CaptureEvent::Opened(Ok(())) => {
                &&& *final(worker) == (Worker { absences: 0, working: false })
                &&& *final(stats) == (AudioStats {
                    counters: AudioCounters {
                        capture_opens: super::next(old(stats).counters.capture_opens),
                        ..old(stats).counters
                    },
                    ..*old(stats)
                })
                &&& r.1 == Remark::Nothing
                &&& r.0 == if stop {
                    WorkerCall::Close(None)
                } else {
                    WorkerCall::Read
                }
            },
            CaptureEvent::Opened(Err(e)) => {
                &&& *final(worker) == old(worker).after_failure(e)
                &&& r.1 == remark_on(*old(stats), AudioSide::Capture, e)
                &&& r.0 == WorkerCall::Sleep(
                    super::reopen_wait(
                        config.reopen_backoff,
                        config.reopen_backoff_cap,
                        final(worker).absences,
                    ),
                )
                &&& final(stats).is_report_of(
                    old(stats).with(
                        AudioSide::Capture,
                        SideState { opening: None, ..old(stats).capture },
                    ),
                    AudioSide::Capture,
                    e,
                    now,
                )
            },
            CaptureEvent::Read(Ok(period)) => {
                let moved = after_move(*old(stats), old(worker).working, AudioSide::Capture);
                &&& final(worker).working
                &&& final(worker).absences == old(worker).absences
                &&& final(shared).ring@ == old(shared).ring@.push(period@).0
                &&& *final(stats) == (AudioStats {
                    counters: AudioCounters {
                        periods_captured: super::next(moved.counters.periods_captured),
                        counts: super::merged(moved.counters.counts, final(shared).ring@.counts),
                        ..moved.counters
                    },
                    ..moved
                })
                &&& r.1 == remark_on_move(*old(stats), old(worker).working, AudioSide::Capture)
                &&& r.0 == if stop {
                    WorkerCall::Close(None)
                } else {
                    WorkerCall::Read
                }
            },
            CaptureEvent::Read(Err(e)) => {
                &&& *final(worker) == *old(worker)
                &&& if stop {
                    r == (WorkerCall::Close(None), Remark::Nothing) && *final(stats) == *old(stats)
                } else {
                    &&& r.1 == remark_on(*old(stats), AudioSide::Capture, e)
                    &&& r.0 == WorkerCall::Close(Some(config.reopen_backoff))
                    &&& final(stats).is_report_of(
                        old(stats).with(
                            AudioSide::Capture,
                            SideState { opening: None, ..old(stats).capture },
                        ),
                        AudioSide::Capture,
                        e,
                        now,
                    )
                }
            },
        },
        r.0 == capture_call(event, stop, *old(worker), *config),
{
    match event {
        CaptureEvent::Begin => (worker.begin(AudioSide::Capture, stop, stats, now), Remark::Nothing),
        CaptureEvent::Opened(Ok(())) => {
            stats.counters.capture_opens = stats.counters.capture_opens.wrapping_add(1);
            worker.absences = 0;
            worker.working = false;
            (read_or_close(stop), Remark::Nothing)
        },
        CaptureEvent::Opened(Err(e)) => worker.open_failed(
            AudioSide::Capture,
            &e,
            stats,
            config,
            now,
        ),
        CaptureEvent::Read(Ok(period)) => {
            let remark = worker.moved(AudioSide::Capture, stats);
            stats.counters.periods_captured = stats.counters.periods_captured.wrapping_add(1);
            let (_, counts) = shared.push(period);
            stats.absorb(counts);
            (read_or_close(stop), remark)
        },
        CaptureEvent::Read(Err(e)) => worker.device_failed(
            AudioSide::Capture,
            &e,
            stop,
            stats,
            config,
            now,
        ),
    }
}

/// The next period, unless the thread is to stop.
fn read_or_close(stop: bool) -> (r: WorkerCall)
    ensures
        r == (if stop {
            WorkerCall::Close(None)
        } else {
            WorkerCall::Read
        }),
{
    if stop {
        WorkerCall::Close(None)
    } else {
        WorkerCall::Read
    }
}

/// What a written period was: whether the output was muted, and where the period came from.
#[derive(Clone, Copy, Debug, PartialEq, Eq, Structural)]
pub struct Writing {
    pub muted: bool,
    pub outcome: PopOutcome,
}

/// The counters after a period was written: audio, a gap where audio should have been, and a mute
/// that was asked for are three different things to a listener.
pub open spec fn after_write(counters: AudioCounters, writing: Writing) -> AudioCounters {
    if writing.muted {
        AudioCounters { periods_muted: super::next(counters.periods_muted), ..counters }
    } else if writing.outcome == PopOutcome::Period {
        AudioCounters { periods_played: super::next(counters.periods_played), ..counters }
    } else {
        AudioCounters { periods_silent: super::next(counters.periods_silent), ..counters }
    }
}

/// Counts a written period.
fn count_write(counters: &mut AudioCounters, writing: Writing)
    ensures
        *final(counters) == after_write(*old(counters), writing),
{
    if writing.muted {
        counters.periods_muted = counters.periods_muted.wrapping_add(1);
    } else if writing.outcome == PopOutcome::Period {
        counters.periods_played = counters.periods_played.wrapping_add(1);
    } else {
        counters.periods_silent = counters.periods_silent.wrapping_add(1);
    }
}

/// How long playback waits for a period.
pub fn patience(config: &AudioConfig) -> (d: Nanos)
    requires
        config.well_formed(),
    ensures
        d == config.patience(),
{
    let depth: Nanos = config.ring.depth();
    let periods: u128 = if config.ring.periods >= 1 {
        config.ring.periods as u128
    } else {
        1
    };
    let period: Nanos = depth / periods;
    if period >= 3_000_000 {
        period
    } else {
        3_000_000
    }
}

/// One step of the playback side: open, wait for a cushion, write whatever the ring hands over,
/// and on any failure report once and open again.
///
/// Mute silences the output and keeps the ring flowing, so that unmuting resumes on live audio.
/// `writing` is what the period in flight is, from the pop to the write.
pub fn playback_loop(
    worker: &mut Worker,
    writing: &mut Writing,
    event: PlaybackEvent,
    stop: bool,
    muted: bool,
    stats: &mut AudioStats,
    config: &AudioConfig,
    now: Nanos,
) -> (r: (WorkerCall, Remark))
    requires
        config.well_formed(),
    ensures
        !(event is Popped) ==> *final(writing) == *old(writing),
        match event {
            PlaybackEvent::Begin => {
                &&& *final(worker) == *old(worker)
                &&& if stop {
                    r == (WorkerCall::Finish, Remark::Nothing) && *final(stats) == *old(stats)
                } else {
                    &&& r == (WorkerCall::Open, Remark::Nothing)
                    &&& *final(stats) == old(stats).with(
                        AudioSide::Playback,
                        SideState { opening: Some(now), ..old(stats).playback },
                    )
                }
            },
            PlaybackEvent::Opened(Ok(())) => {
                &&& *final(worker) == (Worker { absences: 0, working: false })
                &&& *final(stats) == (AudioStats {
                    counters: AudioCounters {
                        playback_opens: super::next(old(stats).counters.playback_opens),
                        ..old(stats).counters
                    },
                    ..*old(stats)
                })
                &&& r.1 == Remark::Nothing
                &&& r.0 == if config.prefill_periods > 0 {
                    WorkerCall::Prime(config.prefill_periods, (config.ring.span() * 4) as Nanos)
                } else if stop {
                    WorkerCall::Close(None)
                } else {
                    WorkerCall::Pop(config.patience() as Nanos)
                }
            },
            PlaybackEvent::Opened(Err(e)) => {
                &&& *final(worker) == old(worker).after_failure(e)
                &&& r.1 == remark_on(*old(stats), AudioSide::Playback, e)
                &&& r.0 == WorkerCall::Sleep(
                    super::reopen_wait(
                        config.reopen_backoff,
                        config.reopen_backoff_cap,
                        final(worker).absences,
                    ),
                )
                &&& final(stats).is_report_of(
                    old(stats).with(
                        AudioSide::Playback,
                        SideState { opening: None, ..old(stats).playback },
                    ),
                    AudioSide::Playback,
                    e,
                    now,
                )
            },
            PlaybackEvent::Primed => {
                &&& *final(worker) == *old(worker)
                &&& *final(stats) == *old(stats)
                &&& r.1 == Remark::Nothing
                &&& r.0 == if stop {
                    WorkerCall::Close(None)
                } else {
                    WorkerCall::Pop(config.patience() as Nanos)
                }
            },
            PlaybackEvent::Closed => {
                &&& *final(worker) == *old(worker)
                &&& *final(stats) == *old(stats)
                &&& r.1 == Remark::Nothing
                &&& r.0 == WorkerCall::Close(
                    if stop {
                        None
                    } else {
                        Some(config.reopen_backoff)
                    },
                )
            },
            PlaybackEvent::Popped(period, outcome, counts) => {
                &&& *final(worker) == *old(worker)
                &&& *final(writing) == (Writing { muted, outcome })
                &&& *final(stats) == (AudioStats {
                    counters: AudioCounters {
                        counts: super::merged(old(stats).counters.counts, counts),
                        ..old(stats).counters
                    },
                    ..*old(stats)
                })
                &&& r.1 == Remark::Nothing
                &&& r.0 is Write
                &&& r.0->Write_0@ == if muted {
                    ring::silent(config.ring.samples())
                } else {
                    period@
                }
            },
            PlaybackEvent::Written(Ok(())) => {
                let counted = AudioStats {
                    counters: after_write(old(stats).counters, *old(writing)),
                    ..*old(stats)
                };
                &&& final(worker).working
                &&& final(worker).absences == old(worker).absences
                &&& *final(stats) == after_move(counted, old(worker).working, AudioSide::Playback)
                &&& r.1 == remark_on_move(*old(stats), old(worker).working, AudioSide::Playback)
                &&& r.0 == if stop {
                    WorkerCall::Close(None)
                } else {
                    WorkerCall::Pop(config.patience() as Nanos)
                }
            },
            PlaybackEvent::Written(Err(e)) => {
                &&& *final(worker) == *old(worker)
                &&& if stop {
                    r == (WorkerCall::Close(None), Remark::Nothing) && *final(stats) == *old(stats)
                } else {
                    &&& r.1 == remark_on(*old(stats), AudioSide::Playback, e)
                    &&& r.0 == WorkerCall::Close(Some(config.reopen_backoff))
                    &&& final(stats).is_report_of(
                        old(stats).with(
                            AudioSide::Playback,
                            SideState { opening: None, ..old(stats).playback },
                        ),
                        AudioSide::Playback,
                        e,
                        now,
                    )
                }
            },
        },
        !(event is Popped) ==> r.0 == playback_call(event, stop, *old(worker), *config),
        event is Popped ==> r.0 is Write && r.0->Write_0@ == played(
            event->Popped_0@,
            muted,
            config.ring.samples(),
        ),
{
    match event {
        PlaybackEvent::Begin => (
            worker.begin(AudioSide::Playback, stop, stats, now),
            Remark::Nothing,
        ),
        PlaybackEvent::Opened(Ok(())) => {
            stats.counters.playback_opens = stats.counters.playback_opens.wrapping_add(1);
            worker.absences = 0;
            worker.working = false;
            if config.prefill_periods > 0 {
                let limit: Nanos = config.ring.depth() * 4;
                return (WorkerCall::Prime(config.prefill_periods, limit), Remark::Nothing);
            }
            (pop_or_close(stop, config), Remark::Nothing)
        },
        PlaybackEvent::Opened(Err(e)) => worker.open_failed(
            AudioSide::Playback,
            &e,
            stats,
            config,
            now,
        ),
        PlaybackEvent::Primed => (pop_or_close(stop, config), Remark::Nothing),
        PlaybackEvent::Closed => {
            if stop {
                (WorkerCall::Close(None), Remark::Nothing)
            } else {
                (WorkerCall::Close(Some(config.reopen_backoff)), Remark::Nothing)
            }
        },
        PlaybackEvent::Popped(period, outcome, counts) => {
            stats.absorb(counts);
            *writing = Writing { muted, outcome };
            if muted {
                (WorkerCall::Write(config.ring.silence()), Remark::Nothing)
            } else {
                (WorkerCall::Write(period), Remark::Nothing)
            }
        },
        PlaybackEvent::Written(Ok(())) => {
            count_write(&mut stats.counters, *writing);
            let remark = worker.moved(AudioSide::Playback, stats);
            (pop_or_close(stop, config), remark)
        },
        PlaybackEvent::Written(Err(e)) => worker.device_failed(
            AudioSide::Playback,
            &e,
            stop,
            stats,
            config,
            now,
        ),
    }
}

/// The next period, unless the thread is to stop.
fn pop_or_close(stop: bool, config: &AudioConfig) -> (r: WorkerCall)
    requires
        config.well_formed(),
    ensures
        r == (if stop {
            WorkerCall::Close(None)
        } else {
            WorkerCall::Pop(config.patience() as Nanos)
        }),
{
    if stop {
        WorkerCall::Close(None)
    } else {
        WorkerCall::Pop(patience(config))
    }
}

/// How long the next slice of a sleep is that a stop cuts short.
pub fn sleep_slice(deadline: Nanos, now: Nanos) -> (d: Nanos)
    ensures
        d == clock::least(20_000_000, clock::since(deadline, now)),
{
    clock::shorter(20_000_000, clock::elapsed(deadline, now))
}

/// Every period that is written is counted once, as played, as silent or as muted.
pub proof fn each_write_is_counted_once(counters: AudioCounters, writing: Writing)
    requires
        counters.periods_played < u64::MAX,
        counters.periods_silent < u64::MAX,
        counters.periods_muted < u64::MAX,
    ensures
        ({
            let after = after_write(counters, writing);
            after.periods_played + after.periods_silent + after.periods_muted
                == counters.periods_played + counters.periods_silent + counters.periods_muted + 1
        }),
{
}

} // verus!
