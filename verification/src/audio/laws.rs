//! What the audio path promises, over whole runs of it.

use vstd::prelude::*;

use super::alsa::{self, AlsaFailure, HwCall, HwPlan, MoveCall, Transfer};
use super::pcm::{self, ScriptView};
use super::ring::{
    self, DriftAction, Look, PopOutcome, PushOutcome, RingConfig, RingUse, RingView,
};
use super::worker::{self, CaptureEvent, PlaybackEvent, Remark, Worker, WorkerCall, Writing};
use super::{AudioConfig, AudioCounters, AudioError, AudioSide, AudioStats};
use crate::clock::Nanos;

verus! {

// ---- the ring ------------------------------------------------------------------------------

/// The ring before use `i` of a run from an empty ring of this shape.
pub open spec fn ring_before(config: RingConfig, uses: Seq<RingUse>, i: int) -> RingView {
    ring::ring_run(ring::fresh(config), uses.take(i)).ring
}

/// Whether a ring is kept off its walls: every push finds room for two more periods, and every pop
/// at least two periods to take from.
pub open spec fn kept_off_the_walls(config: RingConfig, uses: Seq<RingUse>) -> bool {
    forall|i: int|
        0 <= i < uses.len() ==> match #[trigger] uses[i] {
            RingUse::Push(_) => ring_before(config, uses, i).queue.len() + 1 < config.periods,
            RingUse::Pop => ring_before(config, uses, i).queue.len() > 1,
        }
}

/// A ring that is kept off its walls changes nothing: no period is dropped, no silence is put in,
/// and what was pushed comes out, all of it and in order.
pub proof fn off_its_walls_a_ring_changes_nothing(config: RingConfig, uses: Seq<RingUse>)
    requires
        kept_off_the_walls(config, uses),
    ensures
        forall|i: int|
            0 <= i < uses.len() ==> match #[trigger] uses[i] {
                RingUse::Push(period) => ring_before(config, uses, i).push(period).1
                    == PushOutcome::Queued,
                RingUse::Pop => ring_before(config, uses, i).pop().2 == PopOutcome::Period,
            },
        ({
            let run = ring::ring_run(ring::fresh(config), uses);
            run.played + run.ring.queue == ring::periods_pushed(uses)
        }),
{
    assert forall|i: int| 0 <= i < uses.len() implies match #[trigger] uses[i] {
        RingUse::Push(period) => ring_before(config, uses, i).push(period).1
            == PushOutcome::Queued,
        RingUse::Pop => ring_before(config, uses, i).pop().2 == PopOutcome::Period,
    } by {
        lemma_unchanged(config, uses, i);
    }
    lemma_unchanged(config, uses, uses.len() as int);
    assert(uses.take(uses.len() as int) =~= uses);
}

proof fn lemma_unchanged(config: RingConfig, uses: Seq<RingUse>, n: int)
    requires
        kept_off_the_walls(config, uses),
        0 <= n <= uses.len(),
    ensures
        ({
            let run = ring::ring_run(ring::fresh(config), uses.take(n));
            &&& run.ring.config == config
            &&& run.ring.drift == ring::fresh(config).drift
            &&& run.played + run.ring.queue == ring::periods_pushed(uses.take(n))
        }),
        n < uses.len() ==> match uses[n] {
            RingUse::Push(period) => ring_before(config, uses, n).push(period).1
                == PushOutcome::Queued,
            RingUse::Pop => ring_before(config, uses, n).pop().2 == PopOutcome::Period,
        },
    decreases n,
{
    let run = ring::ring_run(ring::fresh(config), uses.take(n));
    if n > 0 {
        lemma_unchanged(config, uses, n - 1);
        assert(uses.take(n).drop_last() =~= uses.take(n - 1));
        assert(uses.take(n).last() == uses[n - 1]);
        let before = ring::ring_run(ring::fresh(config), uses.take(n - 1));
        match uses[n - 1] {
            RingUse::Push(period) => {
                assert(before.played + before.ring.queue.push(period) =~= (before.played
                    + before.ring.queue).push(period));
            },
            RingUse::Pop => {
                assert(before.played.push(before.ring.queue[0]) + before.ring.queue.drop_first()
                    =~= before.played + before.ring.queue);
            },
        }
    } else {
        assert(uses.take(n) =~= seq![]);
        assert(run.played + run.ring.queue =~= seq![]);
    }
    if n < uses.len() {
        assert(uses[n] is Push || uses[n] is Pop);
    }
}

/// How many pushes in a row, up to the last of these looks, found at least `mark` periods.
pub open spec fn pushes_at_least(mark: int, looks: Seq<Look>) -> nat
    decreases looks.len(),
{
    if looks.len() == 0 {
        0
    } else {
        match looks.last() {
            Look::Push(level) => if level >= mark {
                pushes_at_least(mark, looks.drop_last()) + 1
            } else {
                0
            },
            Look::Pop(_) => pushes_at_least(mark, looks.drop_last()),
        }
    }
}

/// How many pops in a row, up to the last of these looks, found at most `mark` periods.
pub open spec fn pops_at_most(mark: int, looks: Seq<Look>) -> nat
    decreases looks.len(),
{
    if looks.len() == 0 {
        0
    } else {
        match looks.last() {
            Look::Push(_) => pops_at_most(mark, looks.drop_last()),
            Look::Pop(level) => if level <= mark {
                pops_at_most(mark, looks.drop_last()) + 1
            } else {
                0
            },
        }
    }
}

/// A new ring of at least two periods asks for a drop at every push that is the fourth per period of
/// its depth, in a row, to find at most one place free; and for silence at every pop that is such a
/// one to find at most one period left. It asks for nothing else.
pub proof fn a_new_ring_corrects_after_four_looks_per_period(
    config: RingConfig,
    looks: Seq<Look>,
    i: int,
)
    requires
        config.periods >= 2,
        0 <= i < looks.len(),
    ensures
        ring::wanted(ring::fresh(config).drift, looks, i) == DriftAction::DropOne <==> (
        looks[i] matches Look::Push(level) && level >= config.periods - 1 && pushes_at_least(
            config.periods - 1,
            looks.take(i + 1),
        ) % (4 * config.periods as nat) == 0),
        ring::wanted(ring::fresh(config).drift, looks, i) == DriftAction::InsertOne <==> (
        looks[i] matches Look::Pop(level) && level <= 1 && pops_at_most(1, looks.take(i + 1)) % (4
            * config.periods as nat) == 0),
{
    let drift = ring::fresh(config).drift;
    ring::a_correction_is_due_after_a_hold(drift, looks, i);
    lemma_rows(config, looks.take(i + 1));
}

proof fn lemma_rows(config: RingConfig, looks: Seq<Look>)
    requires
        config.periods >= 2,
    ensures
        pushes_at_least(config.periods - 1, looks) == ring::high_in_a_row(
            ring::fresh(config).drift,
            looks,
        ),
        pops_at_most(1, looks) == ring::low_in_a_row(ring::fresh(config).drift, looks),
    decreases looks.len(),
{
    if looks.len() > 0 {
        lemma_rows(config, looks.drop_last());
    }
}

/// A push puts its period behind all others and costs at most the oldest one. A full ring overruns;
/// one that is not full gives a period up only where the policy asks for it and there is one.
pub proof fn a_push_is_the_newest_and_costs_at_most_the_oldest(ring: RingView, period: Seq<i16>)
    ensures
        ({
            let (after, outcome) = ring.push(period);
            let wanted = ring.drift.on_push(ring.queue.len()).1;
            &&& after.config == ring.config
            &&& after.queue.len() > 0 && after.queue.last() == period
            &&& outcome == PushOutcome::Overran <==> ring.queue.len() >= ring.config.periods
            &&& outcome == PushOutcome::DriftDropped <==> ring.queue.len() < ring.config.periods
                && ring.queue.len() > 0 && wanted == DriftAction::DropOne
            &&& outcome == PushOutcome::Queued ==> after.queue.drop_last() == ring.queue
            &&& outcome != PushOutcome::Queued && ring.queue.len() > 0 ==> after.queue.drop_last()
                == ring.queue.skip(1)
        }),
{
    assert(ring.queue.push(period).drop_last() =~= ring.queue);
    if ring.queue.len() > 0 {
        assert(ring.queue.drop_first().push(period).drop_last() =~= ring.queue.skip(1));
    }
}

/// A pop hands out the oldest period and takes it out, or hands out a whole period of silence and
/// takes out nothing: silence where there is nothing, and where the policy asks for it.
pub proof fn a_pop_is_the_oldest_or_silence(ring: RingView)
    ensures
        ({
            let (after, period, outcome) = ring.pop();
            let wanted = ring.drift.on_pop(ring.queue.len()).1;
            &&& after.config == ring.config
            &&& outcome == PopOutcome::Underran <==> ring.queue.len() == 0
            &&& outcome == PopOutcome::DriftInserted <==> ring.queue.len() > 0 && wanted
                == DriftAction::InsertOne
            &&& outcome == PopOutcome::Period ==> seq![period] + after.queue == ring.queue
            &&& outcome != PopOutcome::Period ==> after.queue == ring.queue && period.len() == 2
                * ring.config.period_frames && forall|i: int|
                0 <= i < period.len() ==> #[trigger] period[i] == 0
        }),
{
    if ring.queue.len() > 0 {
        assert(seq![ring.queue[0]] + ring.queue.drop_first() =~= ring.queue);
    }
}

/// Each outcome is counted by its own counter, and by no other: the counters of pushes and pops by
/// every push and by every period that is handed out.
pub proof fn every_outcome_has_its_own_counter(ring: RingView, period: Seq<i16>)
    requires
        ring.counts.has_room(),
    ensures
        ({
            let (after, outcome) = ring.push(period);
            &&& after.counts.pushed == ring.counts.pushed + 1
            &&& after.counts.overruns == ring.counts.overruns + if outcome == PushOutcome::Overran {
                1int
            } else {
                0
            }
            &&& after.counts.drift_drops == ring.counts.drift_drops + if outcome
                == PushOutcome::DriftDropped {
                1int
            } else {
                0
            }
            &&& after.counts.popped == ring.counts.popped
            &&& after.counts.underruns == ring.counts.underruns
            &&& after.counts.drift_inserts == ring.counts.drift_inserts
        }),
        ({
            let (after, _, outcome) = ring.pop();
            &&& after.counts.popped == ring.counts.popped + if outcome == PopOutcome::Period {
                1int
            } else {
                0
            }
            &&& after.counts.underruns == ring.counts.underruns + if outcome
                == PopOutcome::Underran {
                1int
            } else {
                0
            }
            &&& after.counts.drift_inserts == ring.counts.drift_inserts + if outcome
                == PopOutcome::DriftInserted {
                1int
            } else {
                0
            }
            &&& after.counts.pushed == ring.counts.pushed
            &&& after.counts.overruns == ring.counts.overruns
            &&& after.counts.drift_drops == ring.counts.drift_drops
        }),
{
}

/// A stall leaves nothing of the policy's memory: after an overrun or an underrun it takes a whole
/// hold of looks to ask for a correction again, on either side.
pub proof fn a_stall_is_forgotten(ring: RingView, period: Seq<i16>, level: nat)
    requires
        ring.drift.hold >= 2,
    ensures
        ring.push(period).1 == PushOutcome::Overran ==> {
            let drift = ring.push(period).0.drift;
            &&& drift.on_push(level).1 == DriftAction::Hold
            &&& drift.on_pop(level).1 == DriftAction::Hold
            &&& drift.hold == ring.drift.hold && drift.high_water == ring.drift.high_water
                && drift.low_water == ring.drift.low_water
        },
        ring.pop().2 == PopOutcome::Underran ==> {
            let drift = ring.pop().0.drift;
            &&& drift.on_push(level).1 == DriftAction::Hold
            &&& drift.on_pop(level).1 == DriftAction::Hold
            &&& drift.hold == ring.drift.hold && drift.high_water == ring.drift.high_water
                && drift.low_water == ring.drift.low_water
        },
{
}

/// What a ring holds in time is all its frames at forty-eight thousand a second, to the nanosecond
/// below; and a frame is two samples.
pub proof fn a_ring_holds_its_frames_worth_of_time(config: RingConfig)
    ensures
        48_000 * config.span() <= config.periods as int * config.period_frames as int
            * 1_000_000_000 < 48_000 * (config.span() + 1),
        config.samples() == 2 * config.period_frames,
{
    let frames = config.periods as nat * config.period_frames as nat * 1_000_000_000;
    assert(frames == config.periods as int * config.period_frames as int * 1_000_000_000);
    vstd::arithmetic::div_mod::lemma_fundamental_div_mod(frames as int, 48_000);
}

// ---- opening again -------------------------------------------------------------------------

/// The wait before an opening is the first wait after one absence or none, twice as long after each
/// further one in a row, and never longer than the cap; after thirty-two it stays.
pub proof fn the_wait_doubles_with_every_absence(base: Nanos, cap: Nanos, absences: u32)
    requires
        base * 0x8000_0000 <= Nanos::MAX,
    ensures
        absences <= 1 ==> super::reopen_wait(base, cap, absences) == (if base <= cap {
            base
        } else {
            cap
        }),
        1 <= absences < 32 ==> ({
            let twice = 2 * super::reopen_wait(base, cap, absences);
            super::reopen_wait(base, cap, (absences + 1) as u32) == (if twice <= cap {
                twice
            } else {
                cap as int
            })
        }),
        absences >= 32 ==> super::reopen_wait(base, cap, absences) == super::reopen_wait(
            base,
            cap,
            32,
        ),
{
    let d = super::absence_doublings(absences);
    assert(crate::clock::doublings(31) == 0x8000_0000) by {
        reveal_with_fuel(crate::clock::doublings, 32);
    }
    crate::clock::doubling_more_is_longer(base, d, 31);
    assert(base * crate::clock::doublings(d) <= base * 0x8000_0000) by (nonlinear_arith)
        requires
            crate::clock::doublings(d) <= 0x8000_0000,
    ;
    if absences <= 1 {
        assert(base * crate::clock::doublings(0) == base) by (nonlinear_arith)
            requires
                crate::clock::doublings(0) == 1,
        ;
    }
    if 1 <= absences < 32 {
        let e = super::absence_doublings((absences + 1) as u32);
        assert(e == d + 1);
        crate::clock::doubling_more_is_longer(base, e, 31);
        assert(crate::clock::doublings(e) == 2 * crate::clock::doublings(d));
        assert(base * crate::clock::doublings(e) == 2 * (base * crate::clock::doublings(d)))
            by (nonlinear_arith)
            requires
                crate::clock::doublings(e) == 2 * crate::clock::doublings(d),
        ;
        assert(base * crate::clock::doublings(e) <= base * 0x8000_0000) by (nonlinear_arith)
            requires
                crate::clock::doublings(e) <= 0x8000_0000,
        ;
    }
}

/// Only a card that cannot be named or has gone is absent, and only an absence counts towards a
/// longer wait; a card that is busy or would not open does not.
pub proof fn only_an_absent_device_is_waited_for_longer(w: Worker, e: AudioError)
    ensures
        e.says_absent() <==> e is NoCard || e is Gone,
        w.absences < u32::MAX ==> w.after_failure(e).absences == w.absences + if e is NoCard
            || e is Gone {
            1int
        } else {
            0
        },
        w.after_failure(e).working == w.working,
{
}

// ---- what is reported ----------------------------------------------------------------------

/// The five kinds of failure have five names.
pub proof fn every_kind_of_failure_has_its_own_name(a: AudioError, b: AudioError)
    requires
        a.kind_words() == b.kind_words(),
    ensures
        a is NoCard <==> b is NoCard,
        a is Busy <==> b is Busy,
        a is Gone <==> b is Gone,
        a is Open <==> b is Open,
        a is Io <==> b is Io,
{
    reveal_strlit("no card");
    reveal_strlit("busy");
    reveal_strlit("gone");
    reveal_strlit("open failed");
    reveal_strlit("I/O error");
    assert("busy"@[0] == 'b' && "gone"@[0] == 'g');
    assert("no card"@.len() == 7 && "busy"@.len() == 4 && "gone"@.len() == 4
        && "open failed"@.len() == 11 && "I/O error"@.len() == 9);
}

/// A failure is known on a side only by that side's own condition, and by both its kind and its
/// words; one that differs in either is new, and so is any on a side that has none.
pub proof fn a_failure_is_known_by_its_kind_and_its_words(
    stats: AudioStats,
    side: AudioSide,
    e: AudioError,
)
    ensures
        stats.of(side).condition is None ==> !stats.is_known(side, e),
        stats.of(side).condition matches Some(c) ==> (stats.is_known(side, e) <==> c.kind@
            == e.kind_words() && c.message@ == e.words()),
        worker::remark_on(stats, side, e) == Remark::Failed <==> !stats.is_known(side, e),
        worker::remark_on(stats, side, e) != Remark::Recovered,
        stats.of(AudioSide::Capture) == stats.capture,
        stats.of(AudioSide::Playback) == stats.playback,
{
}

/// A new failure is counted once and shown on its side, with its kind, its words and the moment; a
/// known one changes nothing, and the moment at which it began stays.
pub proof fn a_report_shows_what_failed_and_since_when(
    was: AudioStats,
    after: AudioStats,
    side: AudioSide,
    e: AudioError,
    now: Nanos,
)
    requires
        after.is_report_of(was, side, e, now),
        was.counters.conditions_logged < u64::MAX,
    ensures
        after.of(side).condition is Some,
        after.of(side).condition->0.kind@ == e.kind_words(),
        after.of(side).condition->0.message@ == e.words(),
        was.is_known(side, e) ==> after == was,
        !was.is_known(side, e) ==> after.counters.conditions_logged
            == was.counters.conditions_logged + 1 && after.of(side).condition->0.since == now
            && after.of(side).condition->0.side == side,
        after.of(side).opening == was.of(side).opening,
        after.counters.periods_captured == was.counters.periods_captured,
        after.counters.recoveries_logged == was.counters.recoveries_logged,
{
}

/// Where both sides have a condition it is the capture side's that is shown.
pub proof fn the_capture_side_is_shown_first(stats: AudioStats)
    ensures
        stats.capture.condition is Some ==> stats.shown() == stats.capture.condition,
        stats.capture.condition is None ==> stats.shown() == stats.playback.condition,
{
}

/// An opening is overdue once the limit, in milliseconds, has passed since it began.
pub proof fn an_opening_is_overdue_after_its_limit(stats: AudioStats, side: AudioSide, now: Nanos)
    ensures
        stats.is_overdue(side, now) <==> stats.opening_limit_ms != 0 && (stats.of(
            side,
        ).opening matches Some(since) && now - since >= stats.opening_limit_ms * 1_000_000),
{
}

/// The first period that moves after an opening ends the side's condition and is one recovery if it
/// had one; every further one changes nothing. The other side keeps what it had.
pub proof fn the_first_period_is_the_recovery(
    stats: AudioStats,
    working: bool,
    side: AudioSide,
    other: AudioSide,
)
    requires
        stats.counters.recoveries_logged < u64::MAX,
    ensures
        ({
            let after = worker::after_move(stats, working, side);
            let had = stats.of(side).condition is Some;
            &&& working ==> after == stats
            &&& !working ==> after.of(side).condition is None && after.of(side).opening is None
            &&& after.counters.recoveries_logged == stats.counters.recoveries_logged + if !working
                && had {
                1int
            } else {
                0
            }
            &&& worker::remark_on_move(stats, working, side) == Remark::Recovered <==> !working
                && had
            &&& worker::remark_on_move(stats, working, side) != Remark::Failed
            &&& other != side ==> after.of(other) == stats.of(other)
            &&& after.counters.conditions_logged == stats.counters.conditions_logged
            &&& after.opening_limit_ms == stats.opening_limit_ms
        }),
{
}

/// A written period counts as muted where the output was muted, as played where it came from the
/// ring, and as silent where the ring had none to give.
pub proof fn a_written_period_counts_as_what_was_heard(counters: AudioCounters, writing: Writing)
    requires
        counters.periods_played < u64::MAX,
        counters.periods_silent < u64::MAX,
        counters.periods_muted < u64::MAX,
    ensures
        ({
            let after = worker::after_write(counters, writing);
            &&& writing.muted ==> after.periods_muted == counters.periods_muted + 1
            &&& !writing.muted && writing.outcome == PopOutcome::Period ==> after.periods_played
                == counters.periods_played + 1
            &&& !writing.muted && writing.outcome != PopOutcome::Period ==> after.periods_silent
                == counters.periods_silent + 1
            &&& after.periods_captured == counters.periods_captured
            &&& after.counts == counters.counts
        }),
{
}

/// Playback waits for a period as long as one lasts, and never less than three milliseconds.
pub proof fn playback_waits_for_one_period(config: AudioConfig)
    requires
        config.ring.periods >= 1,
    ensures
        config.patience() >= 3_000_000,
        config.patience() > 3_000_000 ==> config.patience() * config.ring.periods
            <= config.ring.span() < (config.patience() + 1) * config.ring.periods,
        config.patience() == 3_000_000 ==> config.ring.span() < 3_000_001 * config.ring.periods,
{
    let (span, n) = (config.ring.span() as int, config.ring.periods as int);
    vstd::arithmetic::div_mod::lemma_fundamental_div_mod(span, n);
    vstd::arithmetic::div_mod::lemma_mod_bound(span, n);
    let q = span / n;
    assert(q * n <= span < (q + 1) * n) by (nonlinear_arith)
        requires
            span == n * q + span % n,
            0 <= span % n < n,
    ;
    if q < 3_000_000 {
        assert((q + 1) * n <= 3_000_001 * n) by (nonlinear_arith)
            requires
                q < 3_000_000,
                n >= 1,
        ;
    }
}

/// A counter that both sides publish is the larger of the two readings, each counter by itself.
pub proof fn a_published_counter_is_the_larger_reading(
    a: super::RingCounts,
    b: super::RingCounts,
)
    ensures
        ({
            let m = super::merged(a, b);
            &&& m.pushed == a.pushed || m.pushed == b.pushed
            &&& m.popped == a.popped || m.popped == b.popped
            &&& m.overruns == a.overruns || m.overruns == b.overruns
            &&& m.underruns == a.underruns || m.underruns == b.underruns
            &&& m.drift_drops == a.drift_drops || m.drift_drops == b.drift_drops
            &&& m.drift_inserts == a.drift_inserts || m.drift_inserts == b.drift_inserts
            &&& m.pushed >= a.pushed && m.pushed >= b.pushed
            &&& m.popped >= a.popped && m.popped >= b.popped
            &&& m.overruns >= a.overruns && m.overruns >= b.overruns
            &&& m.underruns >= a.underruns && m.underruns >= b.underruns
            &&& m.drift_drops >= a.drift_drops && m.drift_drops >= b.drift_drops
            &&& m.drift_inserts >= a.drift_inserts && m.drift_inserts >= b.drift_inserts
        }),
{
}

// ---- the sound card ------------------------------------------------------------------------

/// A failure of the card is told by its number alone: somebody else has it, it is gone, or something
/// else went wrong; and in any case with the device, what was being done and the system's words.
pub proof fn a_failure_of_the_card_is_told_by_its_number(
    r: AudioError,
    device: Seq<char>,
    context: Seq<char>,
    e: AlsaFailure,
)
    requires
        alsa::is_classified(r, device, context, e),
    ensures
        r.device_words() == device,
        r is Busy <==> e.errno == 16,
        r is Gone <==> e.errno == 19 || e.errno == 2 || e.errno == 6 || e.errno == 5,
        r is Io <==> e.errno != 16 && e.errno != 19 && e.errno != 2 && e.errno != 6 && e.errno
            != 5,
        r is Busy ==> r->Busy_why@ == context + ": "@ + e.text@,
        r is Gone ==> r->Gone_why@ == context + ": "@ + e.text@,
        r is Io ==> r->Io_why@ == context + ": "@ + e.text@,
{
}

/// A setting that the card refuses is a card that would not open, whatever the number, unless
/// somebody else has it.
pub proof fn a_refused_setting_is_a_card_that_would_not_open(
    r: AudioError,
    device: Seq<char>,
    what: Seq<char>,
    e: AlsaFailure,
)
    requires
        alsa::is_refusal(r, device, what, e),
    ensures
        r.device_words() == device,
        r is Busy <==> e.errno == 16,
        r is Open <==> e.errno != 16,
        r is Open ==> r->Open_why@ == what + ": "@ + e.text@,
        r is Busy ==> r->Busy_why@ == what + ": "@ + e.text@,
{
}

/// The calls from `call` on, as long as one follows another.
pub open spec fn calls_from(call: HwCall, plan: HwPlan, n: nat) -> Seq<HwCall>
    decreases n,
{
    if n == 0 {
        seq![]
    } else {
        seq![call] + match call.following(plan) {
            Some(next) => calls_from(next, plan, (n - 1) as nat),
            None => seq![],
        }
    }
}

/// A card is configured in one order: everything is set before it is applied, applied before it is
/// read back, and read back whole. Resampling is switched off where it is not allowed, before the
/// rate is set.
pub proof fn a_card_is_set_before_it_is_applied_and_read_back(plan: HwPlan)
    ensures
        calls_from(HwCall::Any, plan, 14) == seq![
            HwCall::Any,
            HwCall::Access,
            HwCall::Format,
            HwCall::Channels,
        ] + (if plan.allow_resample {
            seq![]
        } else {
            seq![HwCall::NoResample]
        }) + seq![
            HwCall::Rate,
            HwCall::PeriodSize,
            HwCall::BufferSize,
            HwCall::Apply,
            HwCall::GetRate,
            HwCall::GetChannels,
            HwCall::GetPeriodSize,
            HwCall::GetBufferSize,
        ],
{
    reveal_with_fuel(calls_from, 15);
}

/// A card is asked for two channels at 48000 a second, for periods of the ring's length and for a
/// buffer of so many of them; and only its access, its format, its channels and its rate can be
/// refused as settings.
pub proof fn a_card_is_asked_for_the_one_format(config: AudioConfig)
    requires
        config.ring.period_frames * config.device_periods <= i64::MAX,
        config.ring.period_frames <= i64::MAX,
    ensures
        HwCall::Channels.asks_for(config) == Some(2i64),
        HwCall::Rate.asks_for(config) == Some(48_000i64),
        HwCall::PeriodSize.asks_for(config) matches Some(n) && n == config.ring.period_frames,
        HwCall::BufferSize.asks_for(config) matches Some(n) && n == config.ring.period_frames
            * config.device_periods,
        HwCall::Access.is_setting() && HwCall::Format.is_setting() && HwCall::Channels.is_setting()
            && HwCall::NoResample.is_setting() && HwCall::Rate.is_setting(),
        !HwCall::Any.is_setting() && !HwCall::PeriodSize.is_setting()
            && !HwCall::BufferSize.is_setting() && !HwCall::Apply.is_setting(),
        !HwCall::GetRate.is_setting() && !HwCall::GetChannels.is_setting()
            && !HwCall::GetPeriodSize.is_setting() && !HwCall::GetBufferSize.is_setting(),
{
}

/// What a card grants is taken only with two channels, and where the rate has to be exact only at
/// 48000.
pub proof fn a_card_of_another_shape_is_not_taken(plan: HwPlan, rate: u32, channels: u32)
    ensures
        alsa::acceptable(plan, rate, channels) <==> channels == 2 && (rate == 48_000
            || !plan.exact_rate),
{
}

/// A period is through once all its frames are, and not before: until then the device is waited for,
/// unless the thread is to stop.
pub proof fn a_period_is_through_once_all_its_frames_are(
    t: Transfer,
    device: Seq<char>,
    stop: bool,
    r: MoveCall,
)
    requires
        t.well_formed(),
        t.goes_on(device, stop, r),
    ensures
        t.done == t.frames <==> r == MoveCall::Done(Ok(())),
        t.done < t.frames && !stop ==> r == MoveCall::Wait,
        t.done < t.frames && stop ==> r is Done && r->Done_0 is Err,
        !(r is Move) && !(r is Recover),
{
}

// ---- the stand-ins -------------------------------------------------------------------------

/// The script after `n` reads.
pub open spec fn after_reads(start: ScriptView, n: nat) -> ScriptView
    decreases n,
{
    if n == 0 {
        start
    } else {
        after_reads(start, (n - 1) as nat).advanced()
    }
}

/// A scripted source gives its entries one after the other and its ending for ever after.
pub proof fn a_script_is_read_in_order_and_ends_in_its_ending(start: ScriptView, n: nat)
    ensures
        after_reads(start, n).upcoming() == (if n < start.script.len() {
            start.script[n as int]
        } else {
            start.end
        }),
        start.reads + n <= u64::MAX ==> after_reads(start, n).reads == start.reads + n,
{
    lemma_reads(start, n);
}

proof fn lemma_reads(start: ScriptView, n: nat)
    ensures
        ({
            let now = after_reads(start, n);
            &&& now.end == start.end
            &&& now.script == (if n <= start.script.len() {
                start.script.skip(n as int)
            } else {
                seq![]
            })
            &&& start.reads + n <= u64::MAX ==> now.reads == start.reads + n
        }),
    decreases n,
{
    if n > 0 {
        lemma_reads(start, (n - 1) as nat);
        if n <= start.script.len() {
            assert(start.script.skip(n - 1).drop_first() =~= start.script.skip(n as int));
        } else if n - 1 == start.script.len() {
            assert(start.script.skip(n - 1) =~= seq![]);
        }
    } else {
        assert(start.script.skip(0) =~= start.script);
    }
}

// ---- single decisions ----------------------------------------------------------------------

/// One wait for the device is as long as one period at 48 kHz, in whole milliseconds, and never
/// shorter than five.
pub proof fn a_wait_for_the_device_is_one_period(frames: int)
    requires
        0 <= frames,
    ensures
        alsa::wait_for(frames) >= 5,
        frames >= 240 ==> alsa::wait_for(frames) * 48 <= frames < (alsa::wait_for(frames) + 1) * 48,
        frames < 240 ==> alsa::wait_for(frames) == 5,
{
}

/// A limit is kept in whole milliseconds, and one that cannot be counted is the longest.
pub proof fn a_limit_is_kept_in_milliseconds(limit: Nanos)
    ensures
        AudioStats::limit_in_ms(limit) * 1_000_000 <= limit,
        limit < (AudioStats::limit_in_ms(limit) + 1) * 1_000_000 || AudioStats::limit_in_ms(limit)
            == u64::MAX,
{
}

/// Marks are put in order: it makes no difference which of them is given first, none is changed, and
/// a correction takes at least one look.
pub proof fn marks_are_put_in_order(a: nat, b: nat, hold: nat)
    ensures
        ({
            let p = ring::DriftPolicy::marked(a, b, hold);
            &&& p == ring::DriftPolicy::marked(b, a, hold)
            &&& p.low_water <= p.high_water
            &&& p.low_water + p.high_water == a + b
            &&& p.high_water == a || p.high_water == b
            &&& p.hold >= 1 && (hold >= 1 ==> p.hold == hold)
            &&& hold == 0 ==> p.hold == 1
            &&& p.high_streak == 0 && p.low_streak == 0
        }),
{
}

/// A ring that was used without a loss has nothing to tell: whatever was dropped, put in or replaced
/// is told, and what went through is not.
pub proof fn only_losses_are_told(counts: ring::RingCounts)
    ensures
        !counts.has_any() <==> counts.overruns == 0 && counts.underruns == 0 && counts.drift_drops
            == 0 && counts.drift_inserts == 0,
{
}

/// A period that is queued is handed out at once, closed or not. From an empty ring silence comes,
/// but only after the wait and only until the ring is closed.
pub proof fn what_is_queued_is_handed_out(shared: worker::SharedRing, waited: bool)
    ensures
        shared.ring@.queue.len() > 0 ==> shared.hands_out(waited),
        shared.ring@.queue.len() == 0 && shared.closed ==> !shared.hands_out(waited),
        shared.ring@.queue.len() == 0 && !shared.closed ==> shared.hands_out(waited) == waited,
{
}

/// A wait for periods goes on as long as there are too few of them, and no longer than the ring is
/// open and the time lasts. It ends with the level, whatever that is.
pub proof fn a_wait_for_periods_ends_with_the_level(
    shared: worker::SharedRing,
    periods: nat,
    waited: bool,
)
    ensures
        shared.primed(periods, waited) is None <==> shared.ring@.queue.len() < periods
            && !shared.closed && !waited,
        shared.primed(periods, waited) is Some ==> shared.primed(periods, waited)->0
            == shared.ring@.queue.len(),
{
}

/// An opening that is overdue is shown as an opening that failed, with the side and the limit.
pub proof fn an_overdue_opening_is_shown_as_a_failed_one(
    was: AudioStats,
    after: AudioStats,
    side: AudioSide,
    now: Nanos,
)
    requires
        after.is_supervised(was, side, now),
        was.is_newly_stuck(side, now),
    ensures
        after.of(side).condition is Some,
        after.of(side).condition->0.kind@ == "open failed"@,
        after.of(side).condition->0.message@ == "cannot open "@ + side.words() + ": "@
            + super::stuck_opening(was.opening_limit_ms),
{
    let e = choose|e: AudioError|
        was.is_stuck_error(side, e) && #[trigger] after.is_report_of(was, side, e, now);
    assert(was.is_stuck_error(side, e) && after.is_report_of(was, side, e, now));
}

/// A side that is to stop opens nothing and touches no period: it closes what it has and finishes.
/// Only a failed opening is slept off first.
pub proof fn a_side_that_is_to_stop_starts_nothing(
    capture: CaptureEvent,
    playback: PlaybackEvent,
    worker: Worker,
    config: AudioConfig,
)
    requires
        !(playback is Popped),
        config.prefill_periods == 0,
    ensures
        ({
            let call = worker::capture_call(capture, true, worker, config);
            call == WorkerCall::Finish || call == WorkerCall::Close(None) || call is Sleep
        }),
        worker::capture_call(capture, true, worker, config) is Sleep <==> capture is Opened
            && capture->Opened_0 is Err,
        ({
            let call = worker::playback_call(playback, true, worker, config);
            call == WorkerCall::Finish || call == WorkerCall::Close(None) || call is Sleep
        }),
        worker::playback_call(playback, true, worker, config) is Sleep <==> playback is Opened
            && playback->Opened_0 is Err,
{
}

/// A side that goes on opens the device, then moves period after period, and after a failure it
/// closes the device and pauses for the set time before it begins again.
pub proof fn a_side_goes_on_until_it_fails(
    period: Result<Vec<i16>, AudioError>,
    written: Result<(), AudioError>,
    worker: Worker,
    config: AudioConfig,
)
    ensures
        worker::capture_call(CaptureEvent::Begin, false, worker, config) == WorkerCall::Open,
        worker::capture_call(CaptureEvent::Opened(Ok(())), false, worker, config)
            == WorkerCall::Read,
        period is Ok ==> worker::capture_call(CaptureEvent::Read(period), false, worker, config)
            == WorkerCall::Read,
        period is Err ==> worker::capture_call(CaptureEvent::Read(period), false, worker, config)
            == WorkerCall::Close(Some(config.reopen_backoff)),
        worker::playback_call(PlaybackEvent::Begin, false, worker, config) == WorkerCall::Open,
        written is Ok ==> worker::playback_call(
            PlaybackEvent::Written(written),
            false,
            worker,
            config,
        ) == WorkerCall::Pop(config.patience() as Nanos),
        written is Err ==> worker::playback_call(
            PlaybackEvent::Written(written),
            false,
            worker,
            config,
        ) == WorkerCall::Close(Some(config.reopen_backoff)),
{
}

/// Playback begins with a cushion: an opened device waits for the set periods, for up to four times
/// what the ring holds, and without a cushion it plays at once.
pub proof fn playback_begins_with_its_cushion(worker: Worker, config: AudioConfig)
    ensures
        config.prefill_periods > 0 ==> worker::playback_call(
            PlaybackEvent::Opened(Ok(())),
            false,
            worker,
            config,
        ) == WorkerCall::Prime(config.prefill_periods, (config.ring.span() * 4) as Nanos),
        config.prefill_periods == 0 ==> worker::playback_call(
            PlaybackEvent::Opened(Ok(())),
            false,
            worker,
            config,
        ) == worker::playback_call(PlaybackEvent::Primed, false, worker, config),
        worker::playback_call(PlaybackEvent::Primed, false, worker, config) == WorkerCall::Pop(
            config.patience() as Nanos,
        ),
{
}

/// Without the mute a period is played as it came; with it as many samples of silence are.
pub proof fn a_muted_period_is_silence(period: Seq<i16>, samples: nat)
    ensures
        worker::played(period, false, samples) == period,
        worker::played(period, true, samples).len() == samples,
        forall|i: int|
            0 <= i < samples ==> #[trigger] worker::played(period, true, samples)[i] == 0,
{
}

/// A new ring is empty, of its shape, and has counted nothing.
pub proof fn a_new_ring_has_counted_nothing(config: RingConfig)
    ensures
        ring::fresh(config).config == config,
        ring::fresh(config).queue.len() == 0,
        ring::fresh(config).counts.pushed == 0 && ring::fresh(config).counts.popped == 0,
        ring::fresh(config).counts.overruns == 0 && ring::fresh(config).counts.underruns == 0,
        ring::fresh(config).counts.drift_drops == 0 && ring::fresh(config).counts.drift_inserts
            == 0,
{
}

/// A period is known by its first sample, whatever follows it.
pub proof fn a_period_is_known_by_its_first_sample(first: i16, rest: Seq<i16>)
    ensures
        pcm::marker(seq![first] + rest) == first,
{
}

} // verus!
