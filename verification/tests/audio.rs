//! Audio: the ring, the drift policy, the conditions, the retries and the two threads.

use nanokvm::audio::alsa::{
    check_granted, classify, configure, describe_pcm, stopping, wait_ms, AlsaFailure,
    DefaultSinkOpener, FixedSourceOpener, HwCall, HwPlan, HwStep, MoveCall, MoveReply, Transfer,
    WaitReply,
};
use nanokvm::audio::pcm::{RecordingSink, ScriptedSource};
use nanokvm::audio::worker::{
    capture_loop, patience, playback_loop, sleep_slice, CaptureEvent, PlaybackEvent, Remark,
    RingPop, SharedRing, Worker, WorkerCall, Writing,
};
use nanokvm::audio::{
    is_absence, reopen_delay, AudioConfig, AudioError, AudioSide, AudioStats, DriftAction,
    DriftPolicy, FnSinkOpener, FnSourceOpener, PcmSink, PcmSinkOpener, PcmSource, PcmSourceOpener,
    PeriodRing, PopOutcome, PushOutcome, RingConfig, RingCounts,
};
use nanokvm::clock::{Nanos, MILLISECOND, SECOND};

#[test]
fn only_the_playback_side_may_resample() {
    let capture = HwPlan::for_side(AudioSide::Capture);
    assert!(!capture.allow_resample, "hw:N is a byte copy or an error");
    assert!(capture.exact_rate);

    let playback = HwPlan::for_side(AudioSide::Playback);
    assert!(playback.allow_resample);
    assert!(!playback.exact_rate);
}

#[test]
fn the_device_wait_is_one_period_and_never_zero() {
    let mut config = AudioConfig::default();
    assert_eq!(wait_ms(&config), 10, "480 frames at 48 kHz is 10 ms");
    config.ring.period_frames = 1;
    assert_eq!(wait_ms(&config), 5, "floored rather than a busy loop");
}

fn busy() -> AudioError {
    AudioError::Busy {
        device: "hw:8".to_string(),
        why: "Device or resource busy".to_string(),
    }
}

#[test]
fn the_same_failure_is_a_condition_once_however_often_it_happens() {
    let mut stats = AudioStats::default();
    let e = busy();
    assert!(stats.report(AudioSide::Capture, &e, 0));
    for n in 0..100u128 {
        assert!(!stats.report(AudioSide::Capture, &e, n));
    }
    assert_eq!(stats.snapshot(100).conditions_logged, 1);
}

#[test]
fn a_different_failure_is_a_different_condition() {
    let mut stats = AudioStats::default();
    let busy = AudioError::Busy {
        device: "hw:8".to_string(),
        why: "busy".to_string(),
    };
    let gone = AudioError::Gone {
        device: "hw:8".to_string(),
        why: "No such device".to_string(),
    };
    assert!(stats.report(AudioSide::Capture, &busy, 0));
    assert!(stats.report(AudioSide::Capture, &gone, 0));
    assert!(!stats.report(AudioSide::Capture, &gone, 0));
    assert_eq!(stats.snapshot(0).conditions_logged, 2);
    assert_eq!(stats.condition().map(|c| c.kind), Some("gone"));
}

#[test]
fn each_side_keeps_its_own_condition_and_neither_displaces_the_other() {
    let mut stats = AudioStats::default();
    let capture = AudioError::NoCard("the dongle is not plugged in".to_string());
    let playback = AudioError::Gone {
        device: "default".to_string(),
        why: "the daemon went away".to_string(),
    };
    for _ in 0..50 {
        stats.report(AudioSide::Capture, &capture, 0);
        stats.report(AudioSide::Playback, &playback, 0);
    }
    assert_eq!(stats.snapshot(0).conditions_logged, 2);
    assert_eq!(
        stats.condition_of(AudioSide::Playback).map(|c| c.kind),
        Some("gone")
    );
    assert_eq!(stats.condition().map(|c| c.side), Some(AudioSide::Capture));
    assert!(stats.recovered(AudioSide::Capture));
    assert_eq!(stats.condition().map(|c| c.side), Some(AudioSide::Playback));
    assert_eq!(stats.snapshot(0).recoveries_logged, 1);
}

#[test]
fn publications_out_of_order_never_walk_a_counter_backwards() {
    let mut stats = AudioStats::default();
    let at = |n: u64| RingCounts {
        pushed: n,
        popped: n,
        overruns: n,
        underruns: n,
        drift_drops: n,
        drift_inserts: n,
    };
    let mut last: u64 = 0;
    for n in [3u64, 1, 7, 2, 7, 10, 4] {
        stats.absorb(at(n));
        let now = stats.snapshot(0).counts;
        assert!(now.pushed >= last);
        assert_eq!(now.pushed, now.drift_inserts);
        last = now.pushed;
    }
    assert_eq!(last, 10);
}

#[test]
fn the_retry_schedule_doubles_while_a_device_stays_absent_and_stops_at_the_cap() {
    let base = 500 * MILLISECOND;
    let cap = 10 * SECOND;
    let delays: Vec<Nanos> = (0..8).map(|n| reopen_delay(base, cap, n)).collect();
    assert_eq!(
        delays,
        vec![
            500 * MILLISECOND,
            500 * MILLISECOND,
            SECOND,
            2 * SECOND,
            4 * SECOND,
            8 * SECOND,
            cap,
            cap,
        ]
    );
    assert_eq!(reopen_delay(base, cap, u32::MAX), cap);
}

#[test]
fn only_an_absent_device_backs_off() {
    assert!(is_absence(&AudioError::NoCard("no card".to_string())));
    assert!(is_absence(&AudioError::Gone {
        device: "hw:8".to_string(),
        why: "No such device".to_string(),
    }));
    for present in [
        AudioError::Busy {
            device: "hw:8".to_string(),
            why: "busy".to_string(),
        },
        AudioError::Open {
            device: "default".to_string(),
            why: "no such pcm".to_string(),
        },
        AudioError::Io {
            device: "default".to_string(),
            why: "write failed".to_string(),
        },
    ] {
        assert!(!is_absence(&present), "{}", present.text());
    }
}

#[test]
fn one_sides_recovery_does_not_clear_the_others_condition() {
    let mut stats = AudioStats::default();
    let e = AudioError::Gone {
        device: "default".to_string(),
        why: "the daemon went away".to_string(),
    };
    assert!(stats.report(AudioSide::Playback, &e, 0));
    assert!(!stats.recovered(AudioSide::Capture));
    assert!(stats.condition().is_some());
    assert!(stats.recovered(AudioSide::Playback));
    assert!(stats.condition().is_none());
}

#[test]
fn every_error_names_the_device_it_is_about() {
    for e in [
        AudioError::Busy {
            device: "hw:8".to_string(),
            why: "busy".to_string(),
        },
        AudioError::Gone {
            device: "hw:8".to_string(),
            why: "gone".to_string(),
        },
        AudioError::Open {
            device: "default".to_string(),
            why: "no such pcm".to_string(),
        },
        AudioError::Io {
            device: "default".to_string(),
            why: "write failed".to_string(),
        },
    ] {
        let text = e.text();
        assert!(text.contains(e.device()), "{text} must name {}", e.device());
        assert!(text.len() > e.device().len(), "{text} must say why");
    }
}

#[test]
fn the_prefill_is_deeper_than_the_device_buffer_it_drains_into() {
    let config = AudioConfig::default();
    assert!(
        config.prefill_periods > config.device_periods,
        "a prefill of {} cannot survive a device buffer of {}",
        config.prefill_periods,
        config.device_periods,
    );
    assert!(
        config.prefill_periods < config.ring.periods,
        "a prefill of {} cannot be reached in a ring of {}",
        config.prefill_periods,
        config.ring.periods,
    );
}

// ---- the ring --------------------------------------------------------------------------------

fn cfg(periods: usize) -> RingConfig {
    RingConfig {
        periods,
        period_frames: 2,
    }
}

fn no_drift() -> DriftPolicy {
    DriftPolicy::with_marks(usize::MAX, 0, u32::MAX)
}

fn ring(periods: usize) -> PeriodRing {
    PeriodRing::with_drift(cfg(periods), no_drift())
}

fn period(n: i16) -> Vec<i16> {
    vec![n; cfg(1).period_samples()]
}

#[test]
fn a_full_ring_drops_the_oldest_period_and_counts_it() {
    let mut r = ring(2);
    r.push(period(1));
    r.push(period(2));
    assert!(r.is_full());
    assert_eq!(r.push(period(3)), PushOutcome::Overran);

    assert_eq!(r.counts().overruns, 1);
    assert_eq!(r.len(), 2, "the bound is never exceeded");
    assert_eq!(r.pop().0, period(2));
    assert_eq!(r.pop().0, period(3));
}

#[test]
fn an_empty_ring_hands_over_silence_rather_than_nothing() {
    let mut r = ring(4);
    let (samples, outcome) = r.pop();
    assert_eq!(outcome, PopOutcome::Underran);
    assert_eq!(samples, vec![0; cfg(1).period_samples()]);
    assert_eq!(r.counts().underruns, 1);
    assert_eq!(r.counts().popped, 0, "silence is not a period");
}

#[test]
fn the_drift_policy_holds_until_the_level_stays_on_one_side() {
    let mut p = DriftPolicy::with_marks(6, 1, 3);
    assert_eq!(p.on_push(7), DriftAction::Hold);
    assert_eq!(p.on_push(7), DriftAction::Hold);
    assert_eq!(p.on_push(4), DriftAction::Hold);
    assert_eq!(p.on_push(7), DriftAction::Hold);
    assert_eq!(p.on_push(7), DriftAction::Hold);
    assert_eq!(p.on_push(7), DriftAction::DropOne);
    assert_eq!(p.on_push(7), DriftAction::Hold);
}

#[test]
fn the_two_drift_directions_count_separately() {
    let mut p = DriftPolicy::with_marks(6, 1, 2);
    assert_eq!(p.on_push(7), DriftAction::Hold);
    assert_eq!(p.on_pop(0), DriftAction::Hold);
    assert_eq!(p.on_pop(0), DriftAction::InsertOne);
    assert_eq!(p.on_push(7), DriftAction::DropOne);
}

#[test]
fn a_ring_that_stays_empty_inserts_silence_before_it_underruns() {
    let drift = DriftPolicy::with_marks(3, 1, 2);
    let mut r = PeriodRing::with_drift(cfg(4), drift);
    r.push(period(1));
    assert_eq!(r.pop().1, PopOutcome::Period);
    r.push(period(2));
    let (samples, outcome) = r.pop();
    assert_eq!(outcome, PopOutcome::DriftInserted);
    assert_eq!(samples, vec![0; cfg(1).period_samples()]);
    assert_eq!(r.counts().drift_inserts, 1);
    assert_eq!(r.counts().underruns, 0, "the ring was never actually empty");
    assert_eq!(r.pop().0, period(2));
}

#[test]
fn a_ring_that_stays_full_drops_one_period_before_it_overruns() {
    let drift = DriftPolicy::with_marks(2, 0, 2);
    let mut r = PeriodRing::with_drift(cfg(4), drift);
    r.push(period(1));
    r.push(period(2));
    r.push(period(3));
    assert_eq!(r.push(period(4)), PushOutcome::DriftDropped);
    assert_eq!(r.counts().drift_drops, 1);
    assert_eq!(r.counts().overruns, 0, "the ring never reached its wall");
}

#[test]
fn a_ring_nobody_drains_overruns_rather_than_reporting_drift() {
    let drift = DriftPolicy::with_marks(3, 1, 2);
    let mut r = PeriodRing::with_drift(cfg(4), drift);
    for n in 0..50 {
        r.push(period(n as i16));
    }
    assert_eq!(r.counts().drift_drops, 0, "a stalled sink is not drift");
    assert!(r.counts().overruns > 0, "it is an overrun, and says so");
    assert_eq!(r.len(), 4);
}

#[test]
fn an_empty_ring_underruns_rather_than_inserting_drift_silence() {
    let drift = DriftPolicy::with_marks(3, 1, 2);
    let mut r = PeriodRing::with_drift(cfg(4), drift);
    for _ in 0..50 {
        assert_eq!(r.pop().1, PopOutcome::Underran);
    }
    assert_eq!(r.counts().drift_inserts, 0, "a stalled card is not drift");
    assert_eq!(r.counts().underruns, 50);
}

#[test]
fn an_xrun_clears_the_streak_a_stall_was_building() {
    let mut r = PeriodRing::with_drift(cfg(2), DriftPolicy::with_marks(1, 0, 3));
    r.push(period(1));
    r.push(period(2));
    assert_eq!(r.push(period(3)), PushOutcome::Overran);
    assert_eq!(r.counts().overruns, 1);
    assert_eq!(r.pop().1, PopOutcome::Period);
    assert_eq!(r.push(period(4)), PushOutcome::Queued);
    assert_eq!(r.counts().drift_drops, 0);
}

#[test]
fn the_configured_depth_is_periods_times_period_size() {
    let c = RingConfig {
        periods: 8,
        period_frames: 480,
    };
    assert_eq!(c.period_samples(), 960);
    assert_eq!(c.depth(), 80 * MILLISECOND);
}

#[test]
fn a_ring_accounts_for_every_period() {
    let mut r = PeriodRing::new(cfg(4));
    assert!(r.is_empty());
    assert!(!r.counts().any());
    for n in 0..30i16 {
        r.push(period(n));
        if n % 3 != 0 {
            r.pop();
        }
    }
    let c = r.counts();
    assert_eq!(c.pushed, 30, "one for each push");
    assert_eq!(
        c.pushed,
        c.popped + c.overruns + c.drift_drops + r.len() as u64
    );
    assert_eq!(r.config().periods, 4);
}

// ---- the side channel ------------------------------------------------------------------------

#[test]
fn an_opening_that_hangs_becomes_a_condition() {
    let mut stats = AudioStats::default();
    stats.set_opening_limit(SECOND);
    stats.opening(AudioSide::Playback, 0);
    assert_eq!(stats.opening_sides(), [false, true]);
    let early = stats.snapshot(SECOND / 2);
    assert!(early.condition.is_none());
    assert_eq!(early.opening_side(), Some(AudioSide::Playback));
    let snap = stats.snapshot(2 * SECOND);
    assert_eq!(snap.opening_side(), None, "the condition is shown instead");
    assert_eq!(snap.condition.map(|c| c.side), Some(AudioSide::Playback));
    stats.opened(AudioSide::Playback);
    assert_eq!(stats.opening_sides(), [false, false]);
}

#[test]
fn an_opening_that_hangs_is_one_condition_however_often_it_is_looked_at() {
    let mut stats = AudioStats::default();
    stats.set_opening_limit(SECOND);
    stats.report(AudioSide::Playback, &busy(), 5);
    stats.opening(AudioSide::Capture, 0);
    let first = stats.snapshot(2 * SECOND);
    assert_eq!(first.conditions_logged, 2);
    let stuck = stats.condition_of(AudioSide::Capture).expect("overdue");
    assert_eq!((stuck.side, stuck.since), (AudioSide::Capture, 2 * SECOND));
    assert_eq!(stuck.kind, "open failed");
    assert!(stuck.message.contains("has not returned in 1s"), "{}", stuck.message);
    let second = stats.snapshot(9 * SECOND);
    assert_eq!(second.conditions_logged, first.conditions_logged);
    let shown = second.condition.expect("still shown");
    assert_eq!((shown.side, shown.since), (AudioSide::Capture, 2 * SECOND));
    let still = stats.condition_of(AudioSide::Capture).expect("still overdue");
    assert_eq!((still.side, still.since), (AudioSide::Capture, 2 * SECOND));
    assert_eq!((still.kind, still.message), (stuck.kind, stuck.message));
    let other = stats.condition_of(AudioSide::Playback).expect("left alone");
    assert_eq!((other.kind, other.since), ("busy", 5));
    assert_eq!(stats.supervise_opening(10 * SECOND), [false, false]);
}

#[test]
fn only_a_new_condition_is_worth_saying() {
    let mut stats = AudioStats::default();
    stats.set_opening_limit(SECOND);
    stats.opening(AudioSide::Capture, 0);
    stats.opening(AudioSide::Playback, SECOND);
    assert_eq!(stats.supervise_opening(SECOND / 2), [false, false]);
    assert_eq!(stats.supervise_opening(SECOND), [true, false]);
    assert_eq!(stats.supervise_opening(2 * SECOND), [false, true]);
    assert_eq!(stats.supervise_opening(3 * SECOND), [false, false]);
    let mut unlimited = AudioStats::default();
    unlimited.opening(AudioSide::Capture, 0);
    assert_eq!(unlimited.supervise_opening(100 * SECOND), [false, false]);
    assert!(unlimited.snapshot(200 * SECOND).condition.is_none());
}

#[test]
fn errors_of_the_sound_system_are_told_apart() {
    let failure = |errno: i32| AlsaFailure {
        errno,
        text: "why".to_string(),
    };
    assert!(matches!(
        classify("hw:8", "open", &failure(libc::EBUSY)),
        AudioError::Busy { .. }
    ));
    assert!(matches!(
        classify("hw:8", "open", &failure(libc::ENODEV)),
        AudioError::Gone { .. }
    ));
    let other = classify("hw:8", "open", &failure(libc::EINVAL));
    assert!(!matches!(
        other,
        AudioError::Busy { .. } | AudioError::Gone { .. }
    ));
    assert!(other.text().contains("open: why"), "{}", other.text());
    assert!(stopping("hw:8").text().contains("stopping"));
    assert_eq!(describe_pcm("hw:8"), "ALSA hw:8 S16_LE 48000 Hz 2 ch");
    assert_eq!(
        DefaultSinkOpener::new(AudioConfig::default()).describe(),
        "ALSA default"
    );
    assert_eq!(
        FixedSourceOpener::new("hw:8", AudioConfig::default()).describe(),
        "ALSA hw:8"
    );
}

#[test]
fn a_rate_that_was_not_asked_for_is_refused_on_the_capture_side_only() {
    let capture = HwPlan::for_side(AudioSide::Capture);
    assert!(check_granted("hw:8", capture, 48_000, 2).is_ok());
    assert!(check_granted("hw:8", capture, 44_100, 2).is_err());
    let playback = HwPlan::for_side(AudioSide::Playback);
    assert!(check_granted("default", playback, 44_100, 2).is_ok());
}

/// Answers every call that configures a device.
fn configured(side: AudioSide, rate: u32) -> Result<Vec<HwCall>, AudioError> {
    let mut calls: Vec<HwCall> = vec![HwCall::Any];
    let mut known: u32 = 0;
    loop {
        let call = *calls.last().expect("a call");
        let reply = match call {
            HwCall::GetRate => {
                known = rate;
                rate
            }
            HwCall::GetChannels => 2,
            _ => 0,
        };
        match configure("hw:8", side, call, Ok(reply), known) {
            HwStep::Call(next) => calls.push(next),
            HwStep::Configured => return Ok(calls),
            HwStep::Failed(e) => return Err(e),
        }
    }
}

#[test]
fn a_device_is_configured_call_by_call() {
    let capture = configured(AudioSide::Capture, 48_000).expect("configured");
    assert!(capture.contains(&HwCall::NoResample));
    let playback = configured(AudioSide::Playback, 44_100).expect("configured");
    assert!(!playback.contains(&HwCall::NoResample));
    assert!(configured(AudioSide::Capture, 44_100).is_err());
}

#[test]
fn a_device_is_asked_for_the_shape_of_the_ring() {
    let mut config = AudioConfig::default();
    config.ring.period_frames = 480;
    config.device_periods = 4;
    assert_eq!(HwCall::Channels.value(&config), Some(2));
    assert_eq!(HwCall::Rate.value(&config), Some(48_000));
    assert_eq!(HwCall::PeriodSize.value(&config), Some(480));
    assert_eq!(HwCall::BufferSize.value(&config), Some(1920));
    assert_eq!(HwCall::GetRate.value(&config), None);
}

#[test]
fn a_period_moves_in_pieces() {
    let mut t = Transfer::new(8);
    assert!(matches!(t.next("hw:8", false), MoveCall::Wait));
    assert!(matches!(
        t.wait_ready("hw:8", WaitReply::Ready, false),
        MoveCall::Move(0)
    ));
    assert!(matches!(
        t.moved("hw:8", MoveReply::Frames(1), false),
        MoveCall::Wait
    ));
    assert!(matches!(
        t.wait_ready("hw:8", WaitReply::Ready, true),
        MoveCall::Move(2)
    ));
    assert!(matches!(
        t.wait_ready("hw:8", WaitReply::TimedOut, false),
        MoveCall::Wait
    ));
    let again = || AlsaFailure {
        errno: libc::EAGAIN,
        text: String::new(),
    };
    assert!(matches!(
        t.moved("hw:8", MoveReply::Failed(again()), false),
        MoveCall::Wait
    ));
    let broken = AlsaFailure {
        errno: libc::EPIPE,
        text: String::new(),
    };
    assert!(matches!(
        t.moved("hw:8", MoveReply::Failed(broken), true),
        MoveCall::Recover(_)
    ));
    assert!(matches!(
        t.moved("hw:8", MoveReply::Frames(3), true),
        MoveCall::Done(Ok(()))
    ));
}

#[test]
fn a_stop_ends_a_period_between_two_waits() {
    let stopped = |call: MoveCall| match call {
        MoveCall::Done(Err(e)) => e.text(),
        other => panic!("{other:?}"),
    };
    let want = "hw:8: the audio threads are stopping";
    let mut t = Transfer::new(8);
    assert_eq!(stopped(t.next("hw:8", true)), want);
    assert_eq!(
        stopped(t.wait_ready("hw:8", WaitReply::TimedOut, true)),
        want
    );
    let again = AlsaFailure {
        errno: libc::EAGAIN,
        text: String::new(),
    };
    assert_eq!(
        stopped(t.wait_ready("hw:8", WaitReply::Failed(again), true)),
        want
    );
    assert_eq!(stopped(t.moved("hw:8", MoveReply::Frames(0), true)), want);
    assert_eq!(stopped(t.moved("hw:8", MoveReply::Frames(1), true)), want);
}

#[test]
fn an_opener_tells_its_closure_how_often_it_was_asked() {
    let mut seen: Vec<u64> = Vec::new();
    let mut source = FnSourceOpener::new("late card", |n: u64| {
        seen.push(n);
        if n < 2 {
            return Err(AudioError::NoCard("not there".to_string()));
        }
        let made: Box<dyn PcmSource> = Box::new(ScriptedSource::new("card", vec![5]));
        Ok(made)
    });
    assert_eq!(source.describe(), "scripted source opener late card");
    assert_eq!(source.opens(), 0);
    assert!(source.open().is_err());
    assert!(source.open().is_err());
    let mut opened = source.open().expect("the card is back");
    assert_eq!(source.opens(), 3);
    let mut period = [0i16; 4];
    opened.read_period(&mut period).expect("a period");
    assert_eq!(period, [5; 4]);
    drop(source);
    assert_eq!(seen, vec![0, 1, 2]);

    let mut sink = FnSinkOpener::new("speakers", |n: u64| {
        let made: Box<dyn PcmSink> = Box::new(RecordingSink::new().failing_after(n as usize));
        Ok(made)
    });
    assert_eq!(sink.describe(), "scripted sink opener speakers");
    let mut first = sink.open().expect("opens");
    assert!(first.write_period(&[1, 2]).is_err());
    let mut second = sink.open().expect("opens");
    assert!(second.write_period(&[1, 2]).is_ok());
    assert_eq!(sink.opens(), 2);
}

fn small() -> AudioConfig {
    AudioConfig {
        ring: RingConfig {
            periods: 4,
            period_frames: 48,
        },
        ..AudioConfig::default()
    }
}

#[test]
fn the_capture_side_reads_reports_and_reopens() {
    let config = small();
    let mut shared = SharedRing::new(config.ring);
    let mut stats = AudioStats::default();
    let mut worker = Worker::new();
    let mut step = |event: CaptureEvent, stop: bool| {
        let r = capture_loop(
            &mut worker,
            event,
            stop,
            &mut shared,
            &mut stats,
            &config,
            0,
        );
        let snap = stats.snapshot(0);
        (r, snap)
    };
    assert!(matches!(step(CaptureEvent::Begin, false).0, (WorkerCall::Open, Remark::Nothing)));
    let gone = || AudioError::Gone {
        device: "hw:8".to_string(),
        why: "gone".to_string(),
    };
    let (first, snap) = step(CaptureEvent::Opened(Err(gone())), false);
    let first = match first {
        (WorkerCall::Sleep(d), Remark::Failed) => d,
        other => panic!("{other:?}"),
    };
    assert_eq!(snap.conditions_logged, 1);
    let (second, snap) = step(CaptureEvent::Opened(Err(gone())), false);
    let second = match second {
        (WorkerCall::Sleep(d), Remark::Nothing) => d,
        other => panic!("{other:?}"),
    };
    assert!(second > first);
    assert_eq!(snap.conditions_logged, 1);
    assert!(matches!(
        step(CaptureEvent::Opened(Ok(())), false).0,
        (WorkerCall::Read, Remark::Nothing)
    ));
    let (moved, snap) = step(CaptureEvent::Read(Ok(vec![7; 96])), false);
    assert!(matches!(moved, (WorkerCall::Read, Remark::Recovered)), "{moved:?}");
    assert_eq!((snap.periods_captured, snap.capture_opens), (1, 1));
    assert!(snap.condition.is_none());
    assert_eq!(snap.recoveries_logged, 1);
    assert!(matches!(
        step(CaptureEvent::Begin, true).0,
        (WorkerCall::Finish, Remark::Nothing)
    ));
}

#[test]
fn the_playback_side_primes_writes_and_mutes() {
    let config = small();
    let mut shared = SharedRing::new(config.ring);
    let mut stats = AudioStats::default();
    let mut worker = Worker::new();
    let mut writing = Writing {
        muted: false,
        outcome: PopOutcome::Period,
    };
    let r = playback_loop(
        &mut worker,
        &mut writing,
        PlaybackEvent::Opened(Ok(())),
        false,
        false,
        &mut stats,
        &config,
        0,
    );
    match r {
        (WorkerCall::Prime(n, _), _) => assert_eq!(n, config.prefill_periods),
        other => panic!("{other:?}"),
    }
    assert_eq!(shared.prime(2, false), None);
    shared.push(vec![7; 96]);
    shared.push(vec![8; 96]);
    assert_eq!(shared.prime(2, false), Some(2));
    let (samples, outcome, counts) = match shared.pop(false) {
        RingPop::Period(s, o, c) => (s, o, c),
        other => panic!("{other:?}"),
    };
    assert_eq!(samples, vec![7; 96]);
    let r = playback_loop(
        &mut worker,
        &mut writing,
        PlaybackEvent::Popped(samples, outcome, counts),
        false,
        true,
        &mut stats,
        &config,
        0,
    );
    match r {
        (WorkerCall::Write(s), _) => assert_eq!(s, vec![0; 96], "muted"),
        other => panic!("{other:?}"),
    }
    let r = playback_loop(
        &mut worker,
        &mut writing,
        PlaybackEvent::Written(Ok(())),
        false,
        true,
        &mut stats,
        &config,
        0,
    );
    assert!(matches!(r, (WorkerCall::Pop(_), Remark::Nothing)));
    let broken = PlaybackEvent::Written(Err(busy()));
    let r = playback_loop(
        &mut worker,
        &mut writing,
        broken,
        false,
        true,
        &mut stats,
        &config,
        0,
    );
    assert!(matches!(r, (WorkerCall::Close(Some(_)), Remark::Failed)), "{r:?}");
    let snap = stats.snapshot(0);
    assert_eq!((snap.periods_muted, snap.periods_played), (1, 0));
    shared.close();
    assert_eq!(patience(&config), 3 * MILLISECOND);
    assert!(sleep_slice(SECOND, 0) <= 20 * MILLISECOND);
}

#[test]
fn scripted_devices_play_their_script() {
    let mut source = ScriptedSource::new("fake", vec![3, 4]).ending_with(Err(busy()));
    let mut out = [0i16; 4];
    assert!(source.read_period(&mut out).is_ok());
    assert_eq!(out, [3; 4]);
    assert!(source.read_period(&mut out).is_ok());
    assert_eq!(out, [4; 4]);
    assert!(source.read_period(&mut out).is_err());
    assert!(source.read_period(&mut out).is_err());
    assert_eq!(source.reads(), 4);

    let mut sink = RecordingSink::new().failing_after(1);
    assert!(sink.write_period(&[5, 6]).is_ok());
    assert!(sink.write_period(&[7, 8]).is_err());
    assert_eq!(sink.written().len(), 1);
    assert_eq!(sink.markers(), vec![5]);
}
