//! A bounded ring of whole PCM periods, with correction of clock drift.
//!
//! A ring that stays nearly full drops a period, and one that stays nearly empty inserts silence.
//! Each side counts its own streak, so that a correction cannot be consumed on the wrong side.
//! Overruns and underruns reset the streaks and are counted apart.

use std::collections::VecDeque;

use vstd::prelude::*;

use crate::clock::Nanos;

verus! {

/// The only sample rate of the device.
pub const SAMPLE_RATE: u32 = 48_000;

/// The only number of channels of the device.
pub const CHANNELS: usize = 2;

/// The shape of a ring, in whole periods.
#[derive(Clone, Copy, Debug, PartialEq, Eq, Structural)]
pub struct RingConfig {
    /// How many periods the ring holds.
    pub periods: usize,
    /// Frames per period. One frame is [`CHANNELS`] samples.
    pub period_frames: usize,
}

impl Default for RingConfig {
    /// Eight periods of ten milliseconds.
    fn default() -> (r: RingConfig)
        ensures
            r.periods == 8,
            r.period_frames == 480,
    {
        RingConfig { periods: 8, period_frames: 480 }
    }
}

/// A period of `n` samples without a sound.
pub open spec fn silent(n: nat) -> Seq<i16> {
    Seq::new(n, |i: int| 0i16)
}

impl RingConfig {
    /// Samples in one period.
    pub open spec fn samples(&self) -> nat {
        self.period_frames as nat * 2
    }

    /// A period can be counted.
    pub open spec fn well_formed(&self) -> bool {
        self.period_frames * 2 <= usize::MAX
    }

    /// The length of time that the ring holds.
    pub open spec fn span(&self) -> nat {
        (self.periods as nat * self.period_frames as nat * 1_000_000_000) / SAMPLE_RATE as nat
    }

    /// Samples in one period: the length of every buffer that the ring holds.
    pub fn period_samples(&self) -> (n: usize)
        requires
            self.well_formed(),
        ensures
            n == self.samples(),
    {
        self.period_frames * CHANNELS
    }

    /// How much time the ring holds. Device buffers and transfers are not in it.
    pub fn depth(&self) -> (d: Nanos)
        requires
            self.periods as nat * self.period_frames as nat * 1_000_000_000 <= u64::MAX,
        ensures
            d == self.span(),
    {
        proof {
            assert(self.periods as nat * self.period_frames as nat * 1_000_000_000
                >= self.periods as nat * self.period_frames as nat) by (nonlinear_arith);
        }
        let frames: u64 = self.periods as u64 * self.period_frames as u64;
        ((frames * 1_000_000_000) / SAMPLE_RATE as u64) as u128
    }

    /// A silent period.
    pub fn silence(&self) -> (v: Vec<i16>)
        requires
            self.well_formed(),
        ensures
            v@ == silent(self.samples()),
    {
        let v = vec![0i16; self.period_samples()];
        assert(v@ =~= silent(self.samples()));
        v
    }
}

/// What the drift policy wants done about the fill level.
///
/// A request: the ring carries it out only while it is off the wall on that side. At the wall
/// there is an overrun or an underrun, and nothing left to correct.
#[derive(Clone, Copy, Debug, PartialEq, Eq, Structural)]
pub enum DriftAction {
    /// Nothing.
    Hold,
    /// Drop one period: the producer's clock is faster.
    DropOne,
    /// Insert one silent period: the consumer's clock is faster.
    InsertOne,
}

/// When to spend one period to keep the ring off its walls.
#[derive(Clone, Copy, Debug, PartialEq, Eq)]
pub struct DriftPolicy {
    /// The level from which on the ring counts as nearly full.
    pub high_water: usize,
    /// The level down from which it counts as nearly empty.
    pub low_water: usize,
    /// How many observations in a row on one side it takes.
    pub hold: u32,
    /// Pushes in a row that found the ring nearly full.
    high_streak: u32,
    /// Pops in a row that found it nearly empty.
    low_streak: u32,
}

/// The marks of a drift policy and its streaks.
pub ghost struct DriftView {
    pub high_water: nat,
    pub low_water: nat,
    pub hold: nat,
    /// Pushes in a row at the high mark.
    pub high_streak: nat,
    /// Pops in a row at the low mark.
    pub low_streak: nat,
}

impl DriftView {
    /// The policy after a push at `level`, and what it wants. One push below the mark ends the
    /// streak, and so does a correction.
    pub open spec fn on_push(self, level: nat) -> (DriftView, DriftAction) {
        if level < self.high_water {
            (DriftView { high_streak: 0, ..self }, DriftAction::Hold)
        } else if self.high_streak + 1 >= self.hold {
            (DriftView { high_streak: 0, ..self }, DriftAction::DropOne)
        } else {
            (DriftView { high_streak: self.high_streak + 1, ..self }, DriftAction::Hold)
        }
    }

    /// The policy after a pop at `level`, and what it wants.
    pub open spec fn on_pop(self, level: nat) -> (DriftView, DriftAction) {
        if level > self.low_water {
            (DriftView { low_streak: 0, ..self }, DriftAction::Hold)
        } else if self.low_streak + 1 >= self.hold {
            (DriftView { low_streak: 0, ..self }, DriftAction::InsertOne)
        } else {
            (DriftView { low_streak: self.low_streak + 1, ..self }, DriftAction::Hold)
        }
    }

    /// The policy for a ring of this shape.
    pub open spec fn of_shape(config: RingConfig) -> DriftView {
        DriftView {
            high_water: if config.periods >= 2 {
                (config.periods - 1) as nat
            } else {
                1
            },
            low_water: 1,
            hold: if config.periods >= 1 {
                config.periods as nat * 4
            } else {
                1
            },
            high_streak: 0,
            low_streak: 0,
        }
    }

    /// The policy without its streaks.
    pub open spec fn reset(self) -> DriftView {
        DriftView { high_streak: 0, low_streak: 0, ..self }
    }
}

impl View for DriftPolicy {
    type V = DriftView;

    closed spec fn view(&self) -> DriftView {
        DriftView {
            high_water: self.high_water as nat,
            low_water: self.low_water as nat,
            hold: self.hold as nat,
            high_streak: self.high_streak as nat,
            low_streak: self.low_streak as nat,
        }
    }
}

impl DriftPolicy {
    /// The streaks can grow.
    pub open spec fn well_formed(&self) -> bool {
        self@.high_streak < u32::MAX && self@.low_streak < u32::MAX
    }

    /// The policy of a ring of this shape: the marks are one period in from each wall, and a
    /// streak takes four observations per period of depth.
    pub fn new(cfg: &RingConfig) -> (p: DriftPolicy)
        requires
            cfg.periods * 4 <= u32::MAX,
        ensures
            p.well_formed(),
            p@ == DriftView::of_shape(*cfg),
    {
        DriftPolicy {
            high_water: if cfg.periods >= 2 {
                cfg.periods - 1
            } else {
                1
            },
            low_water: 1,
            hold: if cfg.periods >= 1 {
                cfg.periods as u32 * 4
            } else {
                1
            },
            high_streak: 0,
            low_streak: 0,
        }
    }

    /// What a policy with these marks is.
    pub open spec fn marked(high_water: nat, low_water: nat, hold: nat) -> DriftView {
        DriftView {
            high_water: if high_water >= low_water {
                high_water
            } else {
                low_water
            },
            low_water: if high_water >= low_water {
                low_water
            } else {
                high_water
            },
            hold: if hold >= 1 {
                hold
            } else {
                1
            },
            high_streak: 0,
            low_streak: 0,
        }
    }

    /// A policy with these marks, put in order so that it cannot correct in both directions.
    pub fn with_marks(high_water: usize, low_water: usize, hold: u32) -> (p: DriftPolicy)
        ensures
            p.well_formed(),
            p@ == (DriftView {
                high_water: if high_water >= low_water {
                    high_water as nat
                } else {
                    low_water as nat
                },
                low_water: if high_water >= low_water {
                    low_water as nat
                } else {
                    high_water as nat
                },
                hold: if hold >= 1 {
                    hold as nat
                } else {
                    1
                },
                high_streak: 0,
                low_streak: 0,
            }),
            p@ == DriftPolicy::marked(high_water as nat, low_water as nat, hold as nat),
    {
        DriftPolicy {
            high_water: if high_water >= low_water {
                high_water
            } else {
                low_water
            },
            low_water: if high_water >= low_water {
                low_water
            } else {
                high_water
            },
            hold: if hold >= 1 {
                hold
            } else {
                1
            },
            high_streak: 0,
            low_streak: 0,
        }
    }

    /// What to do before a period is queued at this level: hold, or drop one.
    pub fn on_push(&mut self, level: usize) -> (r: DriftAction)
        requires
            old(self).well_formed(),
        ensures
            final(self).well_formed(),
            (final(self)@, r) == old(self)@.on_push(level as nat),
    {
        if level < self.high_water {
            self.high_streak = 0;
            return DriftAction::Hold;
        }
        self.high_streak = self.high_streak + 1;
        if self.high_streak >= self.hold {
            self.high_streak = 0;
            return DriftAction::DropOne;
        }
        DriftAction::Hold
    }

    /// What to do before a period is taken at this level: hold, or insert one.
    pub fn on_pop(&mut self, level: usize) -> (r: DriftAction)
        requires
            old(self).well_formed(),
        ensures
            final(self).well_formed(),
            (final(self)@, r) == old(self)@.on_pop(level as nat),
    {
        if level > self.low_water {
            self.low_streak = 0;
            return DriftAction::Hold;
        }
        self.low_streak = self.low_streak + 1;
        if self.low_streak >= self.hold {
            self.low_streak = 0;
            return DriftAction::InsertOne;
        }
        DriftAction::Hold
    }

    /// Forgets both streaks. A streak that was counted through a stall measures the stall.
    pub fn reset(&mut self)
        ensures
            final(self).well_formed(),
            final(self)@ == old(self)@.reset(),
    {
        self.high_streak = 0;
        self.low_streak = 0;
    }
}

/// The counters of a ring.
#[derive(Clone, Copy, Debug, PartialEq, Eq, Structural)]
pub struct RingCounts {
    /// Periods that were pushed.
    pub pushed: u64,
    /// Periods that were popped. Silence does not count.
    pub popped: u64,
    /// Periods dropped because the ring was full.
    pub overruns: u64,
    /// Silent periods handed out because the ring was empty.
    pub underruns: u64,
    /// Periods dropped before the ring was full.
    pub drift_drops: u64,
    /// Silent periods inserted before the ring was empty.
    pub drift_inserts: u64,
}

impl Default for RingCounts {
    fn default() -> (r: RingCounts)
        ensures
            r == (RingCounts {
                pushed: 0,
                popped: 0,
                overruns: 0,
                underruns: 0,
                drift_drops: 0,
                drift_inserts: 0,
            }),
    {
        RingCounts {
            pushed: 0,
            popped: 0,
            overruns: 0,
            underruns: 0,
            drift_drops: 0,
            drift_inserts: 0,
        }
    }
}

impl RingCounts {
    /// Whether every counter can count one more.
    pub open spec fn has_room(&self) -> bool {
        &&& self.pushed < u64::MAX
        &&& self.popped < u64::MAX
        &&& self.overruns < u64::MAX
        &&& self.underruns < u64::MAX
        &&& self.drift_drops < u64::MAX
        &&& self.drift_inserts < u64::MAX
    }

    /// Whether anything was dropped, inserted or replaced by silence.
    pub open spec fn has_any(&self) -> bool {
        self.overruns != 0 || self.underruns != 0 || self.drift_drops != 0 || self.drift_inserts
            != 0
    }

    /// Whether anything was dropped, inserted or replaced by silence.
    pub fn any(&self) -> (r: bool)
        ensures
            r == (self.overruns != 0 || self.underruns != 0 || self.drift_drops != 0
                || self.drift_inserts != 0),
            r == self.has_any(),
    {
        self.overruns != 0 || self.underruns != 0 || self.drift_drops != 0 || self.drift_inserts
            != 0
    }
}

/// What a push did.
#[derive(Clone, Copy, Debug, PartialEq, Eq, Structural)]
pub enum PushOutcome {
    /// The period was queued, and nothing displaced.
    Queued,
    /// The oldest period was dropped against drift.
    DriftDropped,
    /// The oldest period was dropped because the ring was full.
    Overran,
}

/// What a pop handed out.
#[derive(Clone, Copy, Debug, PartialEq, Eq, Structural)]
pub enum PopOutcome {
    /// A period that was pushed.
    Period,
    /// Silence, because the ring was empty.
    Underran,
    /// Silence against drift, while the ring had periods in it.
    DriftInserted,
}

/// A bounded queue of whole periods, first in first out, with drift correction on both sides.
#[derive(Debug)]
pub struct PeriodRing {
    config: RingConfig,
    drift: DriftPolicy,
    queue: VecDeque<Vec<i16>>,
    counts: RingCounts,
}

/// What a ring holds and has counted.
#[verifier::ext_equal]
pub ghost struct RingView {
    pub config: RingConfig,
    pub drift: DriftView,
    /// The periods, the oldest first.
    pub queue: Seq<Seq<i16>>,
    pub counts: RingCounts,
}

/// An empty ring of this shape, with the policy of the shape and nothing counted.
pub open spec fn fresh(config: RingConfig) -> RingView {
    RingView {
        config,
        drift: DriftView::of_shape(config),
        queue: seq![],
        counts: RingCounts {
            pushed: 0,
            popped: 0,
            overruns: 0,
            underruns: 0,
            drift_drops: 0,
            drift_inserts: 0,
        },
    }
}

impl RingView {
    /// Whether the ring is full.
    pub open spec fn full(self) -> bool {
        self.queue.len() >= self.config.periods
    }

    /// The most periods that the ring ever holds.
    pub open spec fn bound(self) -> nat {
        if self.config.periods >= 1 {
            self.config.periods as nat
        } else {
            1
        }
    }

    /// Every period that was pushed was popped, dropped for one of the two reasons, or is still
    /// there.
    pub open spec fn accounted(self) -> bool {
        self.counts.pushed == self.counts.popped + self.counts.overruns + self.counts.drift_drops
            + self.queue.len()
    }

    /// The ring without its oldest period.
    pub open spec fn without_oldest(self) -> Seq<Seq<i16>> {
        if self.queue.len() > 0 {
            self.queue.drop_first()
        } else {
            self.queue
        }
    }

    /// The ring after a push, and what the push did.
    pub open spec fn push(self, period: Seq<i16>) -> (RingView, PushOutcome) {
        let (drift, wanted) = self.drift.on_push(self.queue.len());
        let pushed = (self.counts.pushed + 1) as u64;
        if self.full() {
            (
                RingView {
                    drift: drift.reset(),
                    queue: self.without_oldest().push(period),
                    counts: RingCounts {
                        pushed,
                        overruns: (self.counts.overruns + 1) as u64,
                        ..self.counts
                    },
                    ..self
                },
                PushOutcome::Overran,
            )
        } else if wanted == DriftAction::DropOne && self.queue.len() > 0 {
            (
                RingView {
                    drift,
                    queue: self.without_oldest().push(period),
                    counts: RingCounts {
                        pushed,
                        drift_drops: (self.counts.drift_drops + 1) as u64,
                        ..self.counts
                    },
                    ..self
                },
                PushOutcome::DriftDropped,
            )
        } else {
            (
                RingView {
                    drift,
                    queue: self.queue.push(period),
                    counts: RingCounts { pushed, ..self.counts },
                    ..self
                },
                PushOutcome::Queued,
            )
        }
    }

    /// The ring after a pop, what was handed out and why.
    pub open spec fn pop(self) -> (RingView, Seq<i16>, PopOutcome) {
        let (drift, wanted) = self.drift.on_pop(self.queue.len());
        if self.queue.len() == 0 {
            (
                RingView {
                    drift: drift.reset(),
                    counts: RingCounts {
                        underruns: (self.counts.underruns + 1) as u64,
                        ..self.counts
                    },
                    ..self
                },
                silent(self.config.samples()),
                PopOutcome::Underran,
            )
        } else if wanted == DriftAction::InsertOne {
            (
                RingView {
                    drift,
                    counts: RingCounts {
                        drift_inserts: (self.counts.drift_inserts + 1) as u64,
                        ..self.counts
                    },
                    ..self
                },
                silent(self.config.samples()),
                PopOutcome::DriftInserted,
            )
        } else {
            (
                RingView {
                    drift,
                    queue: self.queue.drop_first(),
                    counts: RingCounts { popped: (self.counts.popped + 1) as u64, ..self.counts },
                    ..self
                },
                self.queue[0],
                PopOutcome::Period,
            )
        }
    }
}

impl View for PeriodRing {
    type V = RingView;

    closed spec fn view(&self) -> RingView {
        RingView {
            config: self.config,
            drift: self.drift@,
            queue: self.queue@.map_values(|p: Vec<i16>| p@),
            counts: self.counts,
        }
    }
}

impl PeriodRing {
    /// The bound is never exceeded, every period is a whole one, and none is unaccounted for.
    pub closed spec fn well_formed(&self) -> bool {
        &&& self.config.well_formed()
        &&& self.drift.well_formed()
        &&& self.queue@.len() <= self@.bound()
        &&& forall|i: int|
            0 <= i < self.queue@.len() ==> (#[trigger] self.queue@[i])@.len()
                == self.config.samples()
        &&& self.config.periods >= 1 ==> self@.accounted()
    }

    /// A ring never exceeds its bound, each period in it is a whole one, and every period that was
    /// pushed is accounted for: popped, dropped for one of the two reasons, or still there.
    pub proof fn every_pushed_period_is_accounted_for(&self)
        requires
            self.well_formed(),
        ensures
            self@.queue.len() <= self@.bound(),
            forall|i: int|
                0 <= i < self@.queue.len() ==> (#[trigger] self@.queue[i]).len()
                    == self@.config.samples(),
            self@.config.periods >= 1 ==> self@.accounted(),
    {
    }

    /// An empty ring of this shape.
    pub fn new(config: RingConfig) -> (r: PeriodRing)
        requires
            config.well_formed(),
            config.periods * 4 <= u32::MAX,
        ensures
            r.well_formed(),
            r@ == fresh(config),
    {
        let drift = DriftPolicy::new(&config);
        PeriodRing::with_drift(config, drift)
    }

    /// An empty ring with a drift policy of its own.
    pub fn with_drift(config: RingConfig, drift: DriftPolicy) -> (r: PeriodRing)
        requires
            config.well_formed(),
            drift.well_formed(),
        ensures
            r.well_formed(),
            r@.config == config,
            r@.queue == Seq::<Seq<i16>>::empty(),
            r@.drift == drift@,
            r@.counts == (RingCounts {
                pushed: 0,
                popped: 0,
                overruns: 0,
                underruns: 0,
                drift_drops: 0,
                drift_inserts: 0,
            }),
    {
        let r = PeriodRing { config, drift, queue: VecDeque::new(), counts: RingCounts::default() };
        assert(r@.queue =~= Seq::<Seq<i16>>::empty());
        r
    }

    /// The shape of the ring.
    pub fn config(&self) -> (r: RingConfig)
        ensures
            r == self@.config,
    {
        self.config
    }

    /// What the ring has counted.
    pub fn counts(&self) -> (r: RingCounts)
        ensures
            r == self@.counts,
    {
        self.counts
    }

    /// How many periods the ring holds.
    pub fn len(&self) -> (n: usize)
        ensures
            n == self@.queue.len(),
    {
        self.queue.len()
    }

    /// Whether the ring holds nothing.
    pub fn is_empty(&self) -> (r: bool)
        ensures
            r == (self@.queue.len() == 0),
    {
        self.queue.len() == 0
    }

    /// Whether the ring is at its bound.
    pub fn is_full(&self) -> (r: bool)
        ensures
            r == self@.full(),
    {
        self.queue.len() >= self.config.periods
    }

    /// Queues a period. A full ring drops its oldest one, so that playback stays current.
    pub fn push(&mut self, period: Vec<i16>) -> (r: PushOutcome)
        requires
            old(self).well_formed(),
            old(self)@.counts.has_room(),
            period@.len() == old(self)@.config.samples(),
        ensures
            final(self).well_formed(),
            (final(self)@, r) == old(self)@.push(period@),
            final(self)@.queue.len() <= final(self)@.bound(),
    {
        let ghost was = self@;
        let mut outcome = PushOutcome::Queued;
        let wanted = self.drift.on_push(self.queue.len());
        let full = self.is_full();
        if full {
            let _ = self.queue.pop_front();
            self.counts.overruns = self.counts.overruns + 1;
            self.drift.reset();
            outcome = PushOutcome::Overran;
        } else if wanted == DriftAction::DropOne && self.queue.len() > 0 {
            let _ = self.queue.pop_front();
            self.counts.drift_drops = self.counts.drift_drops + 1;
            outcome = PushOutcome::DriftDropped;
        }
        self.queue.push_back(period);
        self.counts.pushed = self.counts.pushed + 1;
        assert(self@.queue =~= was.push(period@).0.queue);
        outcome
    }

    /// Takes the oldest period. An empty ring hands out silence, since the playback device has to
    /// be fed.
    pub fn pop(&mut self) -> (r: (Vec<i16>, PopOutcome))
        requires
            old(self).well_formed(),
            old(self)@.counts.has_room(),
        ensures
            final(self).well_formed(),
            (final(self)@, r.0@, r.1) == old(self)@.pop(),
            r.0@.len() == old(self)@.config.samples(),
    {
        let ghost was = self@;
        let wanted = self.drift.on_pop(self.queue.len());
        if wanted == DriftAction::InsertOne && self.queue.len() > 0 {
            self.counts.drift_inserts = self.counts.drift_inserts + 1;
            assert(self@.queue =~= was.queue);
            return (self.config.silence(), PopOutcome::DriftInserted);
        }
        match self.queue.pop_front() {
            Some(period) => {
                self.counts.popped = self.counts.popped + 1;
                assert(self@.queue =~= was.queue.drop_first());
                assert(was.queue[0] == period@);
                (period, PopOutcome::Period)
            },
            None => {
                self.counts.underruns = self.counts.underruns + 1;
                self.drift.reset();
                assert(self@.queue =~= was.queue);
                (self.config.silence(), PopOutcome::Underran)
            },
        }
    }
}

/// One look at the level of a ring, before a push or before a pop.
pub ghost enum Look {
    Push(nat),
    Pop(nat),
}

impl DriftView {
    /// The policy after a look, and what it wants.
    pub open spec fn sees(self, look: Look) -> (DriftView, DriftAction) {
        match look {
            Look::Push(level) => self.on_push(level),
            Look::Pop(level) => self.on_pop(level),
        }
    }
}

/// The policy after these looks.
pub open spec fn after_looks(drift: DriftView, looks: Seq<Look>) -> DriftView
    decreases looks.len(),
{
    if looks.len() == 0 {
        drift
    } else {
        after_looks(drift, looks.drop_last()).sees(looks.last()).0
    }
}

/// What the policy wants at look `i`.
pub open spec fn wanted(drift: DriftView, looks: Seq<Look>, i: int) -> DriftAction {
    after_looks(drift, looks.take(i)).sees(looks[i]).1
}

/// How many of the looks come before a push.
pub open spec fn pushes_among(looks: Seq<Look>) -> nat
    decreases looks.len(),
{
    if looks.len() == 0 {
        0
    } else {
        pushes_among(looks.drop_last()) + if looks.last() is Push {
            1nat
        } else {
            0
        }
    }
}

/// How many of the looks come before a pop.
pub open spec fn pops_among(looks: Seq<Look>) -> nat {
    (looks.len() - pushes_among(looks)) as nat
}

/// Two corrections of one kind are at least `hold` observations of that kind apart, whatever the
/// other direction does meanwhile: two drops that many pushes, two insertions that many pops.
pub proof fn corrections_are_a_hold_apart(drift: DriftView, looks: Seq<Look>, i: int, j: int)
    requires
        0 <= i < j < looks.len(),
    ensures
        wanted(drift, looks, i) == DriftAction::DropOne && wanted(drift, looks, j)
            == DriftAction::DropOne ==> pushes_among(looks.subrange(i + 1, j + 1)) >= drift.hold,
        wanted(drift, looks, i) == DriftAction::InsertOne && wanted(drift, looks, j)
            == DriftAction::InsertOne ==> pops_among(looks.subrange(i + 1, j + 1)) >= drift.hold,
{
    assert(looks.take(i + 1).drop_last() =~= looks.take(i));
    let between = looks.subrange(i + 1, j + 1);
    assert(between.drop_last() =~= looks.subrange(i + 1, j));
    assert(between.last() == looks[j]);
    lemma_streaks_since(drift, looks, i + 1, j);
}

proof fn lemma_streaks_since(drift: DriftView, looks: Seq<Look>, from: int, to: int)
    requires
        0 <= from <= to <= looks.len(),
    ensures
        after_looks(drift, looks.take(to)).hold == drift.hold,
        pushes_among(looks.subrange(from, to)) <= to - from,
        after_looks(drift, looks.take(from)).high_streak == 0 ==> after_looks(
            drift,
            looks.take(to),
        ).high_streak <= pushes_among(looks.subrange(from, to)),
        after_looks(drift, looks.take(from)).low_streak == 0 ==> after_looks(
            drift,
            looks.take(to),
        ).low_streak <= pops_among(looks.subrange(from, to)),
    decreases to,
{
    if to > from {
        assert(looks.take(to).drop_last() =~= looks.take(to - 1));
        assert(looks.subrange(from, to).drop_last() =~= looks.subrange(from, to - 1));
        lemma_streaks_since(drift, looks, from, to - 1);
    } else {
        lemma_hold_stays(drift, looks.take(to));
        assert(looks.subrange(from, to) =~= seq![]);
    }
}

proof fn lemma_hold_stays(drift: DriftView, looks: Seq<Look>)
    ensures
        after_looks(drift, looks).hold == drift.hold,
    decreases looks.len(),
{
    if looks.len() > 0 {
        lemma_hold_stays(drift, looks.drop_last());
    }
}

/// How many pushes in a row, up to the last of these looks, found the level at the high mark or
/// above. Pops in between do not count and break nothing.
pub open spec fn high_in_a_row(drift: DriftView, looks: Seq<Look>) -> nat
    decreases looks.len(),
{
    if looks.len() == 0 {
        0
    } else {
        match looks.last() {
            Look::Push(level) => if level >= drift.high_water {
                high_in_a_row(drift, looks.drop_last()) + 1
            } else {
                0
            },
            Look::Pop(_) => high_in_a_row(drift, looks.drop_last()),
        }
    }
}

/// How many pops in a row, up to the last of these looks, found the level at the low mark or below.
pub open spec fn low_in_a_row(drift: DriftView, looks: Seq<Look>) -> nat
    decreases looks.len(),
{
    if looks.len() == 0 {
        0
    } else {
        match looks.last() {
            Look::Push(_) => low_in_a_row(drift, looks.drop_last()),
            Look::Pop(level) => if level <= drift.low_water {
                low_in_a_row(drift, looks.drop_last()) + 1
            } else {
                0
            },
        }
    }
}

proof fn lemma_one_more(k: nat, n: nat)
    requires
        n > 0,
    ensures
        k % n < n,
        (k + 1) % n == if k % n + 1 == n {
            0
        } else {
            k % n + 1
        },
{
    vstd::arithmetic::div_mod::lemma_mod_bound(k as int, n as int);
    vstd::arithmetic::div_mod::lemma_fundamental_div_mod(k as int, n as int);
    let (q, r) = (k as int / n as int, k as int % n as int);
    if r + 1 == n {
        assert(k + 1 == n * (q + 1) + 0) by (nonlinear_arith)
            requires
                k == n * q + r,
                r + 1 == n,
        ;
        vstd::arithmetic::div_mod::lemma_fundamental_div_mod_converse((k + 1) as int, n as int, q + 1, 0);
    } else {
        vstd::arithmetic::div_mod::lemma_fundamental_div_mod_converse((k + 1) as int, n as int, q, r + 1);
    }
}

proof fn lemma_streaks_are_rows(drift: DriftView, looks: Seq<Look>)
    requires
        drift.high_streak == 0,
        drift.low_streak == 0,
        drift.hold >= 1,
    ensures
        ({
            let after = after_looks(drift, looks);
            &&& after.high_water == drift.high_water
            &&& after.low_water == drift.low_water
            &&& after.hold == drift.hold
            &&& after.high_streak == high_in_a_row(drift, looks) % drift.hold
            &&& after.low_streak == low_in_a_row(drift, looks) % drift.hold
        }),
    decreases looks.len(),
{
    if looks.len() > 0 {
        let before = looks.drop_last();
        lemma_streaks_are_rows(drift, before);
        lemma_one_more(high_in_a_row(drift, before), drift.hold);
        lemma_one_more(low_in_a_row(drift, before), drift.hold);
        assert(0nat % drift.hold == 0) by {
            vstd::arithmetic::div_mod::lemma_small_mod(0, drift.hold);
        }
    } else {
        vstd::arithmetic::div_mod::lemma_small_mod(0, drift.hold);
    }
}

/// A push asks for a drop if and only if it is the `hold`-th in a row at the high mark, or the
/// second `hold`-th, and so on; and so does a pop for an insertion at the low mark.
pub proof fn a_correction_is_due_after_a_hold(drift: DriftView, looks: Seq<Look>, i: int)
    requires
        drift.high_streak == 0,
        drift.low_streak == 0,
        drift.hold >= 1,
        0 <= i < looks.len(),
    ensures
        wanted(drift, looks, i) == DriftAction::DropOne <==> (looks[i] matches Look::Push(level)
            && level >= drift.high_water && high_in_a_row(drift, looks.take(i + 1)) % drift.hold
            == 0),
        wanted(drift, looks, i) == DriftAction::InsertOne <==> (looks[i] matches Look::Pop(level)
            && level <= drift.low_water && low_in_a_row(drift, looks.take(i + 1)) % drift.hold
            == 0),
{
    assert(looks.take(i + 1).drop_last() =~= looks.take(i));
    lemma_streaks_are_rows(drift, looks.take(i));
    lemma_one_more(high_in_a_row(drift, looks.take(i)), drift.hold);
    lemma_one_more(low_in_a_row(drift, looks.take(i)), drift.hold);
}

/// The two directions do not disturb each other: a pop leaves the streak of the pushes alone, and
/// a push that of the pops.
pub proof fn the_two_directions_count_separately(drift: DriftView, level: nat)
    ensures
        drift.on_pop(level).0.high_streak == drift.high_streak,
        drift.on_push(level).0.low_streak == drift.low_streak,
        drift.on_pop(level).1 != DriftAction::DropOne,
        drift.on_push(level).1 != DriftAction::InsertOne,
{
}

/// One use of a ring.
pub ghost enum RingUse {
    Push(Seq<i16>),
    Pop,
}

/// A ring after a run of uses, and the periods that were popped in it. Silence is not among them.
pub ghost struct RingRun {
    pub ring: RingView,
    pub played: Seq<Seq<i16>>,
}

/// A run of uses.
pub open spec fn ring_run(start: RingView, uses: Seq<RingUse>) -> RingRun
    decreases uses.len(),
{
    if uses.len() == 0 {
        RingRun { ring: start, played: seq![] }
    } else {
        let run = ring_run(start, uses.drop_last());
        match uses.last() {
            RingUse::Push(period) => RingRun { ring: run.ring.push(period).0, ..run },
            RingUse::Pop => {
                let (ring, period, outcome) = run.ring.pop();
                RingRun {
                    ring,
                    played: if outcome == PopOutcome::Period {
                        run.played.push(period)
                    } else {
                        run.played
                    },
                }
            },
        }
    }
}

/// The periods that a run pushed, in order.
pub open spec fn periods_pushed(uses: Seq<RingUse>) -> Seq<Seq<i16>>
    decreases uses.len(),
{
    if uses.len() == 0 {
        seq![]
    } else {
        match uses.last() {
            RingUse::Push(period) => periods_pushed(uses.drop_last()).push(period),
            RingUse::Pop => periods_pushed(uses.drop_last()),
        }
    }
}

/// Whether the tags of these periods ascend.
pub open spec fn ascend(tag: spec_fn(Seq<i16>) -> int, periods: Seq<Seq<i16>>) -> bool {
    forall|i: int, j: int|
        0 <= i < j < periods.len() ==> tag(#[trigger] periods[i]) < tag(#[trigger] periods[j])
}

/// Periods come out in the order they went in: by whatever tag they ascend when they are pushed,
/// the popped ones and behind them those still in the ring ascend by it.
pub proof fn periods_keep_their_order(
    start: RingView,
    uses: Seq<RingUse>,
    tag: spec_fn(Seq<i16>) -> int,
)
    requires
        start.queue.len() == 0,
        ascend(tag, periods_pushed(uses)),
    ensures
        ascend(tag, ring_run(start, uses).played + ring_run(start, uses).ring.queue),
{
    lemma_order(start, uses, tag);
}

proof fn lemma_ascend_push(tag: spec_fn(Seq<i16>) -> int, s: Seq<Seq<i16>>, x: Seq<i16>)
    requires
        ascend(tag, s),
        forall|i: int| 0 <= i < s.len() ==> tag(#[trigger] s[i]) < tag(x),
    ensures
        ascend(tag, s.push(x)),
        forall|i: int| 0 <= i < s.push(x).len() ==> tag(#[trigger] s.push(x)[i]) <= tag(x),
{
    let t = s.push(x);
    assert forall|i: int, j: int| 0 <= i < j < t.len() implies tag(#[trigger] t[i]) < tag(
        #[trigger] t[j],
    ) by {
        assert(t[i] == s[i]);
        if j < s.len() {
            assert(t[j] == s[j]);
        }
    }
    assert forall|i: int| 0 <= i < t.len() implies tag(#[trigger] t[i]) <= tag(x) by {
        if i < s.len() {
            assert(t[i] == s[i]);
        }
    }
}

proof fn lemma_ascend_remove(tag: spec_fn(Seq<i16>) -> int, s: Seq<Seq<i16>>, k: int, most: int)
    requires
        ascend(tag, s),
        0 <= k < s.len(),
        forall|i: int| 0 <= i < s.len() ==> tag(#[trigger] s[i]) < most,
    ensures
        ascend(tag, s.remove(k)),
        forall|i: int| 0 <= i < s.remove(k).len() ==> tag(#[trigger] s.remove(k)[i]) < most,
{
    let t = s.remove(k);
    assert forall|i: int, j: int| 0 <= i < j < t.len() implies tag(#[trigger] t[i]) < tag(
        #[trigger] t[j],
    ) by {
        assert(t[i] == s[if i < k { i } else { i + 1 }]);
        assert(t[j] == s[if j < k { j } else { j + 1 }]);
    }
    assert forall|i: int| 0 <= i < t.len() implies tag(#[trigger] t[i]) < most by {
        assert(t[i] == s[if i < k { i } else { i + 1 }]);
    }
}

proof fn lemma_line_after_push(ring: RingView, played: Seq<Seq<i16>>, period: Seq<i16>)
    ensures
        ({
            let line = played + ring.queue;
            let next = played + ring.push(period).0.queue;
            next == line.push(period) || (ring.queue.len() > 0 && next == line.remove(
                played.len() as int,
            ).push(period))
        }),
{
    let line = played + ring.queue;
    assert(line.push(period) =~= played + ring.queue.push(period));
    if ring.queue.len() > 0 {
        assert(line.remove(played.len() as int).push(period) =~= played
            + ring.queue.drop_first().push(period));
    }
}

proof fn lemma_line_after_pop(ring: RingView, played: Seq<Seq<i16>>)
    ensures
        ({
            let (next, period, outcome) = ring.pop();
            (if outcome == PopOutcome::Period {
                played.push(period)
            } else {
                played
            }) + next.queue == played + ring.queue
        }),
{
    if ring.queue.len() > 0 {
        assert(played.push(ring.queue[0]) + ring.queue.drop_first() =~= played + ring.queue);
    }
}

/// Whether the tags of `line` ascend, and none is above that of the last of `all`.
spec fn in_line(tag: spec_fn(Seq<i16>) -> int, line: Seq<Seq<i16>>, all: Seq<Seq<i16>>) -> bool {
    &&& ascend(tag, line)
    &&& forall|i: int|
        0 <= i < line.len() ==> all.len() > 0 && tag(#[trigger] line[i]) <= tag(all.last())
}

proof fn lemma_in_line_push(
    tag: spec_fn(Seq<i16>) -> int,
    line: Seq<Seq<i16>>,
    earlier: Seq<Seq<i16>>,
    period: Seq<i16>,
    cut: int,
)
    requires
        in_line(tag, line, earlier),
        ascend(tag, earlier.push(period)),
    ensures
        in_line(tag, line.push(period), earlier.push(period)),
        0 <= cut < line.len() ==> in_line(
            tag,
            line.remove(cut).push(period),
            earlier.push(period),
        ),
{
    let all = earlier.push(period);
    assert(all.last() == period);
    assert forall|i: int| 0 <= i < line.len() implies tag(#[trigger] line[i]) < tag(period) by {
        assert(in_line(tag, line, earlier));
        assert(tag(line[i]) <= tag(earlier.last()));
        assert(earlier.len() > 0);
        assert(all[earlier.len() - 1] == earlier.last());
        assert(all[all.len() - 1] == period);
    }
    lemma_ascend_push(tag, line, period);
    if 0 <= cut < line.len() {
        lemma_ascend_remove(tag, line, cut, tag(period));
        lemma_ascend_push(tag, line.remove(cut), period);
    }
}

proof fn lemma_order(start: RingView, uses: Seq<RingUse>, tag: spec_fn(Seq<i16>) -> int)
    requires
        start.queue.len() == 0,
        ascend(tag, periods_pushed(uses)),
    ensures
        in_line(
            tag,
            ring_run(start, uses).played + ring_run(start, uses).ring.queue,
            periods_pushed(uses),
        ),
    decreases uses.len(),
{
    if uses.len() > 0 {
        let before = uses.drop_last();
        let earlier = periods_pushed(before);
        let all = periods_pushed(uses);
        assert(ascend(tag, earlier)) by {
            assert forall|i: int, j: int| 0 <= i < j < earlier.len() implies tag(
                #[trigger] earlier[i],
            ) < tag(#[trigger] earlier[j]) by {
                assert(all[i] == earlier[i]);
                assert(all[j] == earlier[j]);
            }
        }
        lemma_order(start, before, tag);
        let run = ring_run(start, before);
        let line = run.played + run.ring.queue;
        match uses.last() {
            RingUse::Push(period) => {
                lemma_line_after_push(run.ring, run.played, period);
                lemma_in_line_push(tag, line, earlier, period, run.played.len() as int);
            },
            RingUse::Pop => {
                lemma_line_after_pop(run.ring, run.played);
            },
        }
    }
}

/// How many of the uses are pops.
pub open spec fn pops_used(uses: Seq<RingUse>) -> nat
    decreases uses.len(),
{
    if uses.len() == 0 {
        0
    } else {
        pops_used(uses.drop_last()) + if uses.last() is Pop {
            1nat
        } else {
            0
        }
    }
}

/// Every push is counted as one, and every pop as one: as a period that was handed out, as silence
/// that was inserted, or as an underrun.
pub proof fn every_use_is_counted_once(start: RingView, uses: Seq<RingUse>)
    requires
        start.counts.pushed + uses.len() <= u64::MAX,
        start.counts.popped + uses.len() <= u64::MAX,
        start.counts.underruns + uses.len() <= u64::MAX,
        start.counts.drift_inserts + uses.len() <= u64::MAX,
    ensures
        ({
            let end = ring_run(start, uses).ring.counts;
            &&& end.pushed == start.counts.pushed + periods_pushed(uses).len()
            &&& end.popped + end.drift_inserts + end.underruns == start.counts.popped
                + start.counts.drift_inserts + start.counts.underruns + pops_used(uses)
        }),
{
    lemma_counted(start, uses);
}

proof fn lemma_counted(start: RingView, uses: Seq<RingUse>)
    requires
        start.counts.pushed + uses.len() <= u64::MAX,
        start.counts.popped + uses.len() <= u64::MAX,
        start.counts.underruns + uses.len() <= u64::MAX,
        start.counts.drift_inserts + uses.len() <= u64::MAX,
    ensures
        ({
            let end = ring_run(start, uses).ring.counts;
            &&& end.pushed == start.counts.pushed + periods_pushed(uses).len()
            &&& end.popped + end.drift_inserts + end.underruns == start.counts.popped
                + start.counts.drift_inserts + start.counts.underruns + pops_used(uses)
            &&& end.popped <= start.counts.popped + uses.len()
            &&& end.underruns <= start.counts.underruns + uses.len()
            &&& end.drift_inserts <= start.counts.drift_inserts + uses.len()
            &&& periods_pushed(uses).len() <= uses.len()
        }),
    decreases uses.len(),
{
    if uses.len() > 0 {
        lemma_counted(start, uses.drop_last());
    }
}

/// Whether a run has no pops in it.
pub open spec fn only_pushes(uses: Seq<RingUse>) -> bool {
    forall|i: int| 0 <= i < uses.len() ==> (#[trigger] uses[i]) is Push
}

/// Whether a run has no pushes in it.
pub open spec fn only_pops(uses: Seq<RingUse>) -> bool {
    forall|i: int| 0 <= i < uses.len() ==> (#[trigger] uses[i]) is Pop
}

/// A ring that nobody drains overruns, and never reports drift: with the high mark no deeper than
/// one period from the wall, a consumer that has stopped costs no correction.
pub proof fn a_stopped_consumer_is_not_drift(start: RingView, uses: Seq<RingUse>)
    requires
        start.drift.high_streak == 0,
        start.drift.hold >= 2,
        start.drift.high_water + 1 >= start.config.periods,
        only_pushes(uses),
    ensures
        ring_run(start, uses).ring.counts.drift_drops == start.counts.drift_drops,
{
    lemma_stopped_consumer(start, uses);
}

proof fn lemma_stopped_consumer(start: RingView, uses: Seq<RingUse>)
    requires
        start.drift.high_streak == 0,
        start.drift.hold >= 2,
        start.drift.high_water + 1 >= start.config.periods,
        only_pushes(uses),
    ensures
        ({
            let ring = ring_run(start, uses).ring;
            &&& ring.counts.drift_drops == start.counts.drift_drops
            &&& ring.config == start.config
            &&& ring.drift.hold == start.drift.hold
            &&& ring.drift.high_water == start.drift.high_water
            &&& ring.drift.high_streak <= 1
            &&& ring.drift.high_streak == 1 ==> ring.full()
        }),
    decreases uses.len(),
{
    if uses.len() > 0 {
        let before = uses.drop_last();
        assert forall|i: int| 0 <= i < before.len() implies (#[trigger] before[i]) is Push by {
            assert(before[i] == uses[i]);
        }
        lemma_stopped_consumer(start, before);
        assert(uses[uses.len() - 1] is Push);
    }
}

/// A ring that nobody fills underruns, and never reports drift: with the low mark no deeper than
/// one period, a producer that has stopped costs no correction.
pub proof fn a_stopped_producer_is_not_drift(start: RingView, uses: Seq<RingUse>)
    requires
        start.drift.low_streak == 0,
        start.drift.hold >= 2,
        start.drift.low_water <= 1,
        only_pops(uses),
    ensures
        ring_run(start, uses).ring.counts.drift_inserts == start.counts.drift_inserts,
{
    lemma_stopped_producer(start, uses);
}

proof fn lemma_stopped_producer(start: RingView, uses: Seq<RingUse>)
    requires
        start.drift.low_streak == 0,
        start.drift.hold >= 2,
        start.drift.low_water <= 1,
        only_pops(uses),
    ensures
        ({
            let ring = ring_run(start, uses).ring;
            &&& ring.counts.drift_inserts == start.counts.drift_inserts
            &&& ring.drift.hold == start.drift.hold
            &&& ring.drift.low_water == start.drift.low_water
            &&& ring.drift.low_streak <= 1
            &&& ring.drift.low_streak == 1 ==> ring.queue.len() == 0
        }),
    decreases uses.len(),
{
    if uses.len() > 0 {
        let before = uses.drop_last();
        assert forall|i: int| 0 <= i < before.len() implies (#[trigger] before[i]) is Pop by {
            assert(before[i] == uses[i]);
        }
        lemma_stopped_producer(start, before);
        assert(uses[uses.len() - 1] is Pop);
    }
}

/// An overrun and an underrun forget both streaks, so that a stall leaves no correction armed.
pub proof fn an_xrun_clears_both_streaks(ring: RingView, period: Seq<i16>)
    ensures
        ring.push(period).1 == PushOutcome::Overran ==> ring.push(period).0.drift
            == ring.drift.reset(),
        ring.pop().2 == PopOutcome::Underran ==> ring.pop().0.drift == ring.drift.reset(),
{
}

/// A correction never happens at a wall: a period is dropped against drift only from a ring that
/// is neither empty nor full, and silence is inserted only into one that is not empty.
pub proof fn corrections_happen_off_the_walls(ring: RingView, period: Seq<i16>)
    ensures
        ring.push(period).1 == PushOutcome::DriftDropped ==> 0 < ring.queue.len()
            < ring.config.periods,
        ring.pop().2 == PopOutcome::DriftInserted ==> 0 < ring.queue.len() && ring.pop().0.queue
            == ring.queue,
{
}

} // verus!
