//! What the capture path promises, over whole runs of it.

use vstd::prelude::*;

use super::decoder::{self, DecodeError};
use super::handoff::{Slot, SlotView};
use super::jpeg::{self, JpegHeaderError};
use super::pipeline::{
    self, Capture, Counters, FormatVerdict, FormatWatch, PipelineConfig, PipelineState, Shared,
};
use super::v4l2::{self, BytesUsedStats, Dequeued, OpenAttempt, OpenCall, OpenReply, V4l2Source};
use super::{CaptureError, CompressedFrame, DecodedFrame, IoError};
use crate::clock::{self, Nanos};

verus! {

// ---- the format watch ----------------------------------------------------------------------

/// Two to the power of `n`.
pub open spec fn two_to(n: nat) -> nat
    decreases n,
{
    if n == 0 {
        1
    } else {
        two_to((n - 1) as nat) + two_to((n - 1) as nat)
    }
}

/// Whether a watch of frames that should be `size` is at the start of a run of wrong ones.
pub open spec fn watches_afresh(watch: FormatWatch, size: (u32, u32)) -> bool {
    &&& watch.negotiated == Some(size)
    &&& watch.mismatch_since is None
    &&& watch.mismatch_frames == 0
    &&& !watch.accepted
}

/// Whether all these frames have another size, be it in one dimension only.
pub open spec fn all_differ(frames: Seq<((u32, u32), Nanos)>, size: (u32, u32)) -> bool {
    forall|i: int|
        0 <= i < frames.len() ==> (#[trigger] frames[i]).0.0 != size.0 || frames[i].0.1 != size.1
}

/// How long it is from the first of these frames to the last.
pub open spec fn spans(frames: Seq<((u32, u32), Nanos)>) -> int {
    frames.last().1 - frames[0].1
}

/// A run of wrong frames is acted on: once there are enough of them, over a time that doubles with
/// every restart that was spent, the stream is restarted.
pub proof fn wrong_frames_end_in_a_restart(
    start: FormatWatch,
    size: (u32, u32),
    grace: Nanos,
    frames: Seq<((u32, u32), Nanos)>,
)
    requires
        start.grace == Some(grace),
        watches_afresh(start, size),
        start.restarts < start.restart_limit,
        all_differ(frames, size),
        frames.len() > 0,
        frames.len() >= start.min_frames,
        spans(frames) >= grace * two_to(start.restarts as nat),
    ensures
        pipeline::format_run(start, frames).restarts >= 1,
{
    lemma_wait(grace, start.restarts);
    lemma_run(start, size, grace, frames);
}

/// A budget that is spent is acted on too: a run of wrong frames as long as the grace buys the one
/// reopening where there is a device to reopen, and the acceptance of the size where not.
pub proof fn a_spent_budget_ends_in_a_reopening_or_in_acceptance(
    start: FormatWatch,
    size: (u32, u32),
    grace: Nanos,
    frames: Seq<((u32, u32), Nanos)>,
)
    requires
        start.grace == Some(grace),
        watches_afresh(start, size),
        start.restarts >= start.restart_limit,
        all_differ(frames, size),
        frames.len() > 0,
        frames.len() >= start.min_frames,
        spans(frames) >= grace,
    ensures
        start.recover && !start.reopened ==> pipeline::format_run(start, frames).reopens >= 1,
        !start.recover || start.reopened ==> pipeline::format_run(start, frames).accepts >= 1,
{
    lemma_run(start, size, grace, frames);
}

/// Nothing is acted on before its time: where a run of wrong frames has come to a restart, there
/// were enough of them and enough time; and where a run was acted on at all, there was the grace.
pub proof fn nothing_is_acted_on_before_its_time(
    start: FormatWatch,
    size: (u32, u32),
    grace: Nanos,
    frames: Seq<((u32, u32), Nanos)>,
)
    requires
        start.grace == Some(grace),
        watches_afresh(start, size),
        all_differ(frames, size),
        frames.len() > 0,
        forall|i: int, j: int|
            0 <= i <= j < frames.len() ==> (#[trigger] frames[i]).1 <= (#[trigger] frames[j]).1,
    ensures
        ({
            let run = pipeline::format_run(start, frames);
            let acted = run.restarts + run.reopens + run.accepts > 0;
            &&& acted ==> frames.len() >= start.min_frames && spans(frames) >= grace
            &&& acted && start.restarts < start.restart_limit && start.restarts < 32 ==> spans(
                frames,
            ) >= grace * two_to(start.restarts as nat) || grace * two_to(start.restarts as nat)
                > Nanos::MAX
            &&& acted && start.restarts < start.restart_limit ==> run.restarts > 0
            &&& acted && start.restarts >= start.restart_limit && start.recover && !start.reopened
                ==> run.reopens > 0
        }),
    decreases frames.len(),
{
    let n = frames.len() - 1;
    lemma_wait(grace, start.restarts);
    assert(frames.last() == frames[n]);
    if n > 0 {
        let head = frames.drop_last();
        assert(head.last() == frames[n - 1]);
        assert forall|i: int| 0 <= i < head.len() implies (#[trigger] head[i]).0.0 != size.0
            || head[i].0.1 != size.1 by {
            assert(head[i] == frames[i]);
        }
        assert forall|i: int, j: int| 0 <= i <= j < head.len() implies (#[trigger] head[i]).1 <= (
        #[trigger] head[j]).1 by {
            assert(head[i] == frames[i] && head[j] == frames[j]);
        }
        nothing_is_acted_on_before_its_time(start, size, grace, head);
        lemma_quiet(start, size, grace, head);
        assert(frames[n - 1].1 <= frames[n].1);
    } else {
        assert(frames.drop_last() =~= seq![]);
    }
}

/// A watch that has seen `n` wrong frames since `first` and has done nothing about them.
spec fn has_seen(start: FormatWatch, watch: FormatWatch, n: nat, first: Nanos) -> bool {
    watch == (FormatWatch {
        mismatch_frames: if n <= u32::MAX {
            n as u32
        } else {
            u32::MAX
        },
        mismatch_since: if n > 0 {
            Some(first)
        } else {
            None
        },
        ..start
    })
}

proof fn lemma_quiet(
    start: FormatWatch,
    size: (u32, u32),
    grace: Nanos,
    frames: Seq<((u32, u32), Nanos)>,
)
    requires
        start.grace == Some(grace),
        watches_afresh(start, size),
        all_differ(frames, size),
    ensures
        ({
            let run = pipeline::format_run(start, frames);
            run.restarts + run.reopens + run.accepts > 0 || has_seen(
                start,
                run.watch,
                frames.len(),
                frames[0].1,
            )
        }),
        start.restarts < start.restart_limit ==> ({
            let run = pipeline::format_run(start, frames);
            run.restarts > 0 || run.reopens + run.accepts == 0
        }),
        start.restarts >= start.restart_limit ==> ({
            let run = pipeline::format_run(start, frames);
            if start.recover && !start.reopened {
                run.reopens > 0 || run.restarts + run.accepts == 0
            } else {
                run.accepts > 0 || run.restarts + run.reopens == 0
            }
        }),
    decreases frames.len(),
{
    if frames.len() > 0 {
        let head = frames.drop_last();
        assert forall|i: int| 0 <= i < head.len() implies (#[trigger] head[i]).0.0 != size.0
            || head[i].0.1 != size.1 by {
            assert(head[i] == frames[i]);
        }
        lemma_quiet(start, size, grace, head);
        assert(frames.last() == frames[frames.len() - 1]);
    }
}

proof fn lemma_run(
    start: FormatWatch,
    size: (u32, u32),
    grace: Nanos,
    frames: Seq<((u32, u32), Nanos)>,
)
    requires
        start.grace == Some(grace),
        watches_afresh(start, size),
        all_differ(frames, size),
        frames.len() > 0,
        frames.len() >= start.min_frames,
        spans(frames) >= grace,
    ensures
        ({
            let run = pipeline::format_run(start, frames);
            if start.restarts < start.restart_limit {
                spans(frames) >= clock::product(grace, pipeline::grace_factor(start.restarts))
                    ==> run.restarts > 0
            } else if start.recover && !start.reopened {
                run.reopens > 0
            } else {
                run.accepts > 0
            }
        }),
{
    let head = frames.drop_last();
    assert forall|i: int| 0 <= i < head.len() implies (#[trigger] head[i]).0.0 != size.0
        || head[i].0.1 != size.1 by {
        assert(head[i] == frames[i]);
    }
    lemma_quiet(start, size, grace, head);
    assert(frames.last() == frames[frames.len() - 1]);
}

proof fn lemma_two_to(n: nat)
    ensures
        two_to(n) == clock::doublings(n),
        two_to(n) >= 1,
        n >= 32 ==> two_to(n) >= 0x1_0000_0000,
    decreases n,
{
    if n > 0 {
        lemma_two_to((n - 1) as nat);
        if n == 32 {
            assert(two_to(32) == 0x1_0000_0000) by {
                reveal_with_fuel(two_to, 33);
            }
        }
    }
}

proof fn lemma_wait(grace: Nanos, restarts: u32)
    ensures
        clock::product(grace, pipeline::grace_factor(restarts)) <= grace * two_to(restarts as nat),
        restarts < 32 && grace * two_to(restarts as nat) <= Nanos::MAX ==> clock::product(
            grace,
            pipeline::grace_factor(restarts),
        ) == grace * two_to(restarts as nat),
        grace <= grace * two_to(restarts as nat),
{
    lemma_two_to(restarts as nat);
    let factor = pipeline::grace_factor(restarts);
    assert(grace * factor <= grace * two_to(restarts as nat)) by (nonlinear_arith)
        requires
            factor <= two_to(restarts as nat),
    ;
    assert(grace <= grace * two_to(restarts as nat)) by (nonlinear_arith)
        requires
            1 <= two_to(restarts as nat),
    ;
}

/// A watch forgets a run at the first frame of the right size: it starts afresh with a whole budget,
/// and what the device was opened with stays.
pub proof fn the_right_size_ends_a_run(watch: FormatWatch, size: (u32, u32), now: Nanos)
    requires
        watch.grace is Some,
        watch.negotiated == Some(size),
    ensures
        ({
            let (after, verdict) = watch.watched(size, now);
            &&& verdict == FormatVerdict::Fine
            &&& watches_afresh(after, size)
            &&& after.restarts == 0 && !after.reopened
            &&& after.grace == watch.grace && after.min_frames == watch.min_frames
                && after.restart_limit == watch.restart_limit && after.recover == watch.recover
                && after.escalating == watch.escalating
        }),
{
}

/// A size that was accepted is put up with, and only the right one is noticed again.
pub proof fn an_accepted_size_is_put_up_with(watch: FormatWatch, dims: (u32, u32), now: Nanos)
    requires
        watch.accepted,
        watch.negotiated != Some(dims),
    ensures
        watch.watched(dims, now) == (watch, FormatVerdict::Fine),
{
}

/// A restart is counted and starts the run over, so that the next one has to wait anew.
pub proof fn a_restart_starts_the_run_over(watch: FormatWatch, dims: (u32, u32), now: Nanos)
    requires
        watch.watched(dims, now).1 == FormatVerdict::Restart,
    ensures
        ({
            let after = watch.watched(dims, now).0;
            &&& after.restarts == watch.restarts + 1
            &&& after.mismatch_since is None && after.mismatch_frames == 0
            &&& after.negotiated == watch.negotiated && after.reopened == watch.reopened
                && after.accepted == watch.accepted && after.escalating == watch.escalating
        }),
{
}

/// Opening the device gives the watch what was negotiated, no run and a whole budget. The one
/// reopening is spent only where the watch itself has just asked for it.
pub proof fn an_opening_starts_the_watch_afresh(watch: FormatWatch, size: (u32, u32))
    ensures
        ({
            let after = watch.armed(Some(size));
            &&& watches_afresh(after, size)
            &&& after.restarts == 0 && !after.escalating
            &&& after.reopened <==> watch.reopened && watch.escalating
            &&& after.grace == watch.grace && after.min_frames == watch.min_frames
                && after.restart_limit == watch.restart_limit && after.recover == watch.recover
        }),
        watch.armed(None).negotiated is None,
{
}

/// A watch that has asked for a reopening and is given one does not ask for another: from there a
/// spent budget ends in acceptance.
pub proof fn a_reopening_is_asked_for_once(
    watch: FormatWatch,
    dims: (u32, u32),
    now: Nanos,
    size: (u32, u32),
    next: (u32, u32),
    later: Nanos,
)
    requires
        watch.watched(dims, now).1 == FormatVerdict::Reopen,
    ensures
        watch.watched(dims, now).0.armed(Some(size)).reopened,
        watch.watched(dims, now).0.armed(Some(size)).watched(next, later).1
            != FormatVerdict::Reopen,
{
}

/// A new watch has the settings of the pipeline, and looks at nothing until a device is open.
pub proof fn a_new_watch_has_the_settings(
    config: PipelineConfig,
    recover: bool,
    dims: (u32, u32),
    now: Nanos,
)
    ensures
        ({
            let watch = FormatWatch::idle(config, recover);
            &&& watch.grace == config.format_mismatch_grace
            &&& watch.min_frames == config.format_mismatch_frames
            &&& watch.restart_limit == config.format_mismatch_restart_limit
            &&& watch.recover == recover
            &&& watch.restarts == 0 && !watch.reopened && !watch.accepted && !watch.escalating
            &&& watch.watched(dims, now) == (watch, FormatVerdict::Fine)
        }),
{
}

// ---- the counters --------------------------------------------------------------------------

/// The counters after these frames, each with the moment it was taken.
pub open spec fn after_frames(
    start: Counters,
    frames: Seq<(CompressedFrame, Nanos)>,
) -> Counters
    decreases frames.len(),
{
    if frames.len() == 0 {
        start
    } else {
        let (frame, now) = frames.last();
        after_frames(start, frames.drop_last()).with_frame(frame, pipeline::frame_len(frame), now)
    }
}

/// How many of these frames have another size than the one before them.
pub open spec fn size_changes(frames: Seq<(CompressedFrame, Nanos)>) -> nat
    decreases frames.len(),
{
    if frames.len() < 2 {
        0
    } else {
        let (last, before) = (frames.last().0, frames[frames.len() - 2].0);
        size_changes(frames.drop_last()) + if last.width != before.width || last.height
            != before.height {
            1nat
        } else {
            0
        }
    }
}

/// Frames are counted one by one, and so are the changes of their size; the rest of the counters
/// tells of the latest frame, by its own time stamp and by the clock.
pub proof fn frames_and_their_sizes_are_counted(
    start: Counters,
    frames: Seq<(CompressedFrame, Nanos)>,
)
    requires
        start.last_resolution is None,
        start.frames_captured + frames.len() <= u64::MAX,
        start.resolution_changes + frames.len() <= u64::MAX,
    ensures
        ({
            let end = after_frames(start, frames);
            &&& end.frames_captured == start.frames_captured + frames.len()
            &&& end.resolution_changes == start.resolution_changes + size_changes(frames)
            &&& frames.len() > 0 ==> {
                let (frame, now) = frames.last();
                &&& end.last_resolution == Some((frame.width, frame.height))
                &&& end.last_sequence == Some(frame.sequence)
                &&& end.last_captured_at == Some(frame.captured_at)
                &&& end.last_frame_at == Some(now)
                &&& frame.jpeg@.len() <= u32::MAX ==> end.bytes.last == frame.jpeg@.len()
                    && end.bytes_window.last == frame.jpeg@.len()
            }
            &&& end.frames_decoded == start.frames_decoded
            &&& end.capture_errors == start.capture_errors
            &&& end.decode_errors == start.decode_errors
            &&& end.dropped_pre_decode == start.dropped_pre_decode
            &&& end.state == start.state
        }),
{
    lemma_frames_counted(start, frames);
}

proof fn lemma_frames_counted(start: Counters, frames: Seq<(CompressedFrame, Nanos)>)
    requires
        start.last_resolution is None,
        start.frames_captured + frames.len() <= u64::MAX,
        start.resolution_changes + frames.len() <= u64::MAX,
    ensures
        ({
            let end = after_frames(start, frames);
            &&& size_changes(frames) <= frames.len()
            &&& end.frames_captured == start.frames_captured + frames.len()
            &&& end.resolution_changes == start.resolution_changes + size_changes(frames)
            &&& frames.len() == 0 ==> end.last_resolution is None
            &&& frames.len() > 0 ==> {
                let (frame, now) = frames.last();
                &&& end.last_resolution == Some((frame.width, frame.height))
                &&& end.last_sequence == Some(frame.sequence)
                &&& end.last_captured_at == Some(frame.captured_at)
                &&& end.last_frame_at == Some(now)
                &&& frame.jpeg@.len() <= u32::MAX ==> end.bytes.last == frame.jpeg@.len()
                    && end.bytes_window.last == frame.jpeg@.len()
            }
            &&& end.frames_decoded == start.frames_decoded
            &&& end.capture_errors == start.capture_errors
            &&& end.decode_errors == start.decode_errors
            &&& end.dropped_pre_decode == start.dropped_pre_decode
            &&& end.state == start.state
        }),
    decreases frames.len(),
{
    if frames.len() > 0 {
        let head = frames.drop_last();
        lemma_frames_counted(start, head);
        if head.len() > 0 {
            assert(head.last() == frames[frames.len() - 2]);
        }
    }
}

/// Each verdict of the format watch has a counter of its own, and a frame that is fine none.
pub proof fn every_verdict_has_its_own_counter(c: Counters, verdict: FormatVerdict)
    requires
        c.has_room(),
    ensures
        ({
            let after = c.with_verdict(verdict);
            &&& after.format_mismatch_restarts == c.format_mismatch_restarts + if verdict
                == FormatVerdict::Restart {
                1int
            } else {
                0
            }
            &&& after.format_mismatch_reopens == c.format_mismatch_reopens + if verdict
                == FormatVerdict::Reopen {
                1int
            } else {
                0
            }
            &&& after.format_mismatch_accepted == c.format_mismatch_accepted + if verdict
                == FormatVerdict::Accept {
                1int
            } else {
                0
            }
            &&& after.frames_captured == c.frames_captured
            &&& after.stream_restarts == c.stream_restarts
            &&& after.reopens == c.reopens
            &&& after.disconnects == c.disconnects
            &&& after.state == c.state
        }),
{
}

/// The statistics after these sizes.
pub open spec fn after_sizes(sizes: Seq<u32>) -> BytesUsedStats
    decreases sizes.len(),
{
    if sizes.len() == 0 {
        BytesUsedStats { count: 0, min: 0, max: 0, total: 0, last: 0 }
    } else {
        after_sizes(sizes.drop_last()).recorded(sizes.last())
    }
}

/// The sum of these sizes.
pub open spec fn sum_of(sizes: Seq<u32>) -> nat
    decreases sizes.len(),
{
    if sizes.len() == 0 {
        0
    } else {
        sum_of(sizes.drop_last()) + sizes.last() as nat
    }
}

/// The statistics of sizes are what their names say: how many, their sum, the latest, and the
/// smallest and the largest of them.
pub proof fn sizes_are_summed_up(sizes: Seq<u32>)
    requires
        sizes.len() <= u32::MAX,
    ensures
        ({
            let stats = after_sizes(sizes);
            &&& stats.count == sizes.len()
            &&& stats.total == sum_of(sizes)
            &&& sizes.len() > 0 ==> {
                &&& stats.last == sizes.last()
                &&& sizes.contains(stats.min) && sizes.contains(stats.max)
                &&& forall|i: int|
                    0 <= i < sizes.len() ==> stats.min <= #[trigger] sizes[i] <= stats.max
            }
        }),
    decreases sizes.len(),
{
    assert(sum_of(sizes) <= sizes.len() * u32::MAX) by {
        lemma_sum_bound(sizes);
    }
    assert(sizes.len() * u32::MAX <= u64::MAX) by (nonlinear_arith)
        requires
            sizes.len() <= u32::MAX,
    ;
    if sizes.len() > 0 {
        let head = sizes.drop_last();
        sizes_are_summed_up(head);
        let stats = after_sizes(sizes);
        let before = after_sizes(head);
        assert(sizes[sizes.len() - 1] == sizes.last());
        if head.len() > 0 {
            let lo = choose|i: int| 0 <= i < head.len() && head[i] == before.min;
            let hi = choose|i: int| 0 <= i < head.len() && head[i] == before.max;
            assert(sizes[lo] == before.min && sizes[hi] == before.max);
        }
        assert forall|i: int| 0 <= i < sizes.len() implies stats.min <= #[trigger] sizes[i]
            <= stats.max by {
            if i < head.len() {
                assert(head[i] == sizes[i]);
            }
        }
    }
}

proof fn lemma_sum_bound(sizes: Seq<u32>)
    ensures
        sum_of(sizes) <= sizes.len() * u32::MAX,
    decreases sizes.len(),
{
    if sizes.len() > 0 {
        lemma_sum_bound(sizes.drop_last());
        assert(sizes.len() * u32::MAX == (sizes.len() - 1) * u32::MAX + u32::MAX)
            by (nonlinear_arith);
    }
}

// ---- the state -----------------------------------------------------------------------------

/// A pipeline that runs is shown as stalled once no frame has come for the whole of its limit,
/// counted from its start until there is one; and no other state turns into a stall.
pub proof fn a_stall_is_the_absence_of_frames(shared: Shared, now: Nanos)
    ensures
        ({
            let latest = match shared.counters.last_frame_at {
                Some(t) => t as int,
                None => shared.started_at as int,
            };
            &&& shared.counters.state == PipelineState::Running ==> (shared.state_at(now)
                == PipelineState::Stalled <==> now - latest >= shared.stall_after
                || shared.stall_after == 0)
            &&& shared.counters.state == PipelineState::Running ==> shared.state_at(now)
                == PipelineState::Stalled || shared.state_at(now) == PipelineState::Running
            &&& shared.counters.state != PipelineState::Running ==> shared.state_at(now)
                == shared.counters.state
        }),
{
}

/// Two errors are told apart by what they are and, where the system gave a number, by it: one is
/// worded again only if it is another.
pub proof fn errors_are_the_same_by_what_they_are(a: CaptureError, b: CaptureError)
    ensures
        a is Disconnected && pipeline::kind_of(a) == pipeline::kind_of(b) ==> b is Disconnected,
        a is Timeout && pipeline::kind_of(a) == pipeline::kind_of(b) ==> b is Timeout,
        a is BadFrame && pipeline::kind_of(a) == pipeline::kind_of(b) ==> b is BadFrame,
        a is Config && pipeline::kind_of(a) == pipeline::kind_of(b) ==> b is Config,
        a is Io && pipeline::kind_of(a) == pipeline::kind_of(b) ==> b is Io && (a->Io_0.errno
            == b->Io_0.errno || a->Io_0.errno is None || b->Io_0.errno is None),
        a is Timeout && b is Timeout ==> pipeline::kind_of(a) == pipeline::kind_of(b),
        a is BadFrame && b is BadFrame ==> pipeline::kind_of(a) == pipeline::kind_of(b),
        a is Config && b is Config ==> pipeline::kind_of(a) == pipeline::kind_of(b),
        a is Io && b is Io && a->Io_0.errno == b->Io_0.errno ==> pipeline::kind_of(a)
            == pipeline::kind_of(b),
{
}

/// The first ten errors in a row are each answered with a nap of a fiftieth of a second, and every
/// further one with a tenth.
pub proof fn naps_get_longer_after_ten_errors(errors: u32)
    ensures
        errors <= 10 ==> 50 * pipeline::nap_after(errors) == clock::SECOND,
        errors > 10 ==> 10 * pipeline::nap_after(errors) == clock::SECOND,
{
}

/// A stall is answered once as long as it may last has passed since the latest frame, restart or
/// opening, and never where nothing is to be restarted.
pub proof fn a_stall_is_answered_after_its_limit(capture: Capture, now: Nanos)
    ensures
        capture.restart_after is None ==> !capture.stall_is_due(now),
        capture.restart_after matches Some(after) ==> (capture.stall_is_due(now) <==> now
            >= capture.restart_base + after || after == 0),
{
}

/// The waits before reopenings double from the first one on, as long as the longest allows, and
/// none is longer than that.
pub proof fn waits_before_reopenings_double(capture: Capture, failures: nat)
    ensures
        ({
            let wait = pipeline::reopen_wait(capture, failures);
            let next = pipeline::reopen_wait(capture, failures + 1);
            &&& wait <= capture.reopen_max_backoff
            &&& next == capture.next_wait(wait)
            &&& 2 * wait <= capture.reopen_max_backoff ==> next == 2 * wait
            &&& 2 * wait > capture.reopen_max_backoff ==> next == capture.reopen_max_backoff
        }),
        pipeline::reopen_wait(capture, 0) <= capture.reopen_backoff,
        capture.reopen_backoff <= capture.reopen_max_backoff ==> pipeline::reopen_wait(capture, 0)
            == capture.reopen_backoff,
{
}

// ---- the handoff ---------------------------------------------------------------------------

/// The newest value wins: what is put into an open slot is what is taken next, and what it displaced
/// goes back to the producer. A closed slot takes and gives nothing.
pub proof fn the_newest_value_wins<T>(slot: SlotView<T>, v: T)
    ensures
        !slot.closed ==> {
            &&& slot.put(v).0.take().1 == Some(v)
            &&& slot.put(v).1 == slot.pending
            &&& slot.put(v).0.dropped == slot.dropped + if slot.pending is Some {
                1int
            } else {
                0
            }
            &&& !slot.put(v).0.closed
        },
        slot.closed ==> slot.put(v) == (slot, Some(v)),
        slot.take().0.pending is None && slot.take().0.closed == slot.closed
            && slot.take().0.dropped == slot.dropped,
        slot.close().closed && slot.close().pending is None && slot.close().dropped
            == slot.dropped,
{
}

// ---- the capture device --------------------------------------------------------------------

/// A failed call means that the node is gone exactly for the three numbers that say so. Running out
/// of time is a stall, unless the number says that the stream failed. All else is told as it is.
pub proof fn a_failed_call_is_a_loss_a_stall_or_an_error(e: IoError)
    ensures
        v4l2::classified(e) == CaptureError::Disconnected <==> e.errno == Some(19i32) || e.errno
            == Some(6i32) || e.errno == Some(2i32),
        v4l2::classified(e) is Timeout ==> v4l2::classified(e) == CaptureError::Timeout(
            250_000_000,
        ),
        v4l2::classified(e) is Timeout <==> e.timed_out && e.errno != Some(19i32) && e.errno
            != Some(6i32) && e.errno != Some(2i32) && e.errno != Some(5i32),
        v4l2::classified(e) is Io ==> v4l2::classified(e) == CaptureError::Io(e),
        !(v4l2::classified(e) is BadFrame) && !(v4l2::classified(e) is Config),
{
}

/// An interval is that of one rate only, however it is written: one over the rate is, so is every
/// multiple of it, and no interval of nothing is.
pub proof fn an_interval_is_that_of_one_rate(
    fps: u32,
    other: u32,
    numerator: u32,
    denominator: u32,
    k: u32,
)
    ensures
        v4l2::interval_is(fps, 1, fps),
        !v4l2::interval_is(fps, 0, denominator),
        v4l2::interval_is(fps, numerator, denominator) && v4l2::interval_is(
            other,
            numerator,
            denominator,
        ) ==> fps == other,
        v4l2::interval_is(fps, numerator, denominator) && 0 < k && k * numerator <= u32::MAX && k
            * denominator <= u32::MAX ==> v4l2::interval_is(
            fps,
            (k * numerator) as u32,
            (k * denominator) as u32,
        ),
        v4l2::interval_is(fps, numerator, denominator) && fps > 0 ==> denominator != 0
            && denominator as int / fps as int == numerator,
{
    if v4l2::interval_is(fps, numerator, denominator) && v4l2::interval_is(
        other,
        numerator,
        denominator,
    ) {
        assert(fps == other) by (nonlinear_arith)
            requires
                fps * numerator == other * numerator,
                numerator > 0,
        ;
    }
    if v4l2::interval_is(fps, numerator, denominator) {
        assert(k * denominator == fps * (k * numerator)) by (nonlinear_arith)
            requires
                denominator == fps * numerator,
        ;
        if k > 0 {
            assert(k * numerator > 0) by (nonlinear_arith)
                requires
                    k > 0,
                    numerator > 0,
            ;
        }
        if fps > 0 {
            assert(fps * numerator > 0) by (nonlinear_arith)
                requires
                    fps > 0,
                    numerator > 0,
            ;
            assert(denominator == fps as int * numerator as int + 0);
            vstd::arithmetic::div_mod::lemma_fundamental_div_mod_converse(
                denominator as int,
                fps as int,
                numerator as int,
                0,
            );
        }
    }
}

/// A descriptor that was hung up or closed is gone whatever else is set; data to read counts before
/// an error; and an error alone is never taken for a buffer.
pub proof fn events_mean_what_their_bits_say(events: i16)
    ensures
        v4l2::event_meaning(events) is Gone <==> events & 0x10 != 0 || events & 0x20 != 0,
        v4l2::event_meaning(events) is Ready <==> events & 0x10 == 0 && events & 0x20 == 0 && events
            & 0x01 != 0,
        v4l2::event_meaning(events) is StreamError <==> events & 0x10 == 0 && events & 0x20 == 0
            && events & 0x01 == 0 && events & 0x08 != 0,
{
    assert(events & (32i16 | 16i16) != 0 <==> events & 0x10 != 0 || events & 0x20 != 0)
        by (bit_vector);
}

/// A time stamp is its seconds and its parts, to the nanosecond, and a later one is never earlier.
pub proof fn a_time_stamp_is_its_seconds_and_parts(
    sec: i64,
    part: i64,
    later_sec: i64,
    later_part: i64,
)
    ensures
        0 <= sec && 0 <= part < 1_000_000 ==> v4l2::stamp(sec, part, 999_999, 1_000) == sec
            * 1_000_000_000 + part * 1_000,
        0 <= sec && 0 <= part < 1_000_000_000 ==> v4l2::stamp(sec, part, 999_999_999, 1) == sec
            * 1_000_000_000 + part,
        sec < 0 ==> v4l2::stamp(sec, part, 999_999, 1_000) == v4l2::stamp(0, part, 999_999, 1_000),
        part < 0 ==> v4l2::stamp(sec, part, 999_999, 1_000) == v4l2::stamp(sec, 0, 999_999, 1_000),
        sec < later_sec || (sec == later_sec && part <= later_part) ==> v4l2::stamp(
            sec,
            part,
            999_999,
            1_000,
        ) <= v4l2::stamp(later_sec, later_part, 999_999, 1_000) || later_sec <= 0,
        v4l2::stamp(sec, part, 999_999, 1_000) < (if sec > 0 {
            sec as int
        } else {
            0
        } + 1) * 1_000_000_000,
{
}

/// A buffer is a frame exactly if the driver used no more than there is, there is something, and
/// its own header gives a size that is not over the ceiling.
pub proof fn a_buffer_is_a_frame_by_its_own_header(d: Dequeued)
    ensures
        v4l2::frame_complaint(d) is None <==> d.over_long is None && d.jpeg@.len() > 0 && (
        jpeg::header_dimensions(d.jpeg@) matches Ok((w, h)) && w <= 4096 && h <= 2304),
{
}

/// The sizes on offer are those with two sides, up to the largest; they stand in one order, in which
/// each two that differ have their place and a wider one comes first.
pub proof fn sizes_on_offer_have_one_order(a: (u32, u32), b: (u32, u32), c: (u32, u32))
    ensures
        v4l2::offered(a) <==> 1 <= a.0 <= 4096 && 1 <= a.1 <= 2304,
        !v4l2::larger(a, a),
        v4l2::larger(a, b) && v4l2::larger(b, c) ==> v4l2::larger(a, c),
        a != b ==> v4l2::larger(a, b) != v4l2::larger(b, a),
        a.0 > b.0 ==> v4l2::larger(a, b),
        a.0 == b.0 && a.1 > b.1 ==> v4l2::larger(a, b),
{
}

// ---- decoding ------------------------------------------------------------------------------

/// A frame is decoded only where the decoder read the very size that the frame says it has, that
/// size is not over the ceiling, and the output is four bytes for every pixel of it.
pub proof fn only_a_frame_of_its_own_size_is_decoded(
    width: u32,
    height: u32,
    dimensions: Option<(nat, nat)>,
    buffer_size: Option<nat>,
)
    requires
        dimensions matches Some((w, h)) ==> w <= 0xffff && h <= 0xffff,
    ensures
        decoder::header_refusal(width, height, dimensions, buffer_size) is None <==> dimensions
            == Some((width as nat, height as nat)) && width <= 4096 && height <= 2304
            && buffer_size == Some((width * height * 4) as nat),
        decoder::header_refusal(width, height, None, buffer_size) == Some(
            DecodeError::NoDimensions,
        ),
        dimensions matches Some((w, h)) ==> {
            let refusal = decoder::header_refusal(width, height, dimensions, buffer_size);
            &&& w > 4096 || h > 2304 ==> refusal == Some(
                DecodeError::DimensionsTooLarge {
                    width: w as u32,
                    height: h as u32,
                    max_width: 4096,
                    max_height: 2304,
                },
            )
            &&& w <= 4096 && h <= 2304 && (w != width || h != height) ==> refusal == Some(
                DecodeError::DimensionMismatch {
                    header_w: width,
                    header_h: height,
                    decoder_w: w as u32,
                    decoder_h: h as u32,
                },
            )
        },
{
}

/// A size over the ceiling on either side is refused before anything is read, with the ceiling.
pub proof fn the_ceiling_binds_both_sides(width: u32, height: u32)
    ensures
        decoder::size_refusal(width, height) is None <==> width <= 4096 && height <= 2304,
        width > 4096 || height > 2304 ==> decoder::size_refusal(width, height) == Some(
            DecodeError::DimensionsTooLarge { width, height, max_width: 4096, max_height: 2304 },
        ),
{
}

/// Frames are decoded to four bytes a pixel, with anything wrong an error, up to the ceiling.
pub proof fn frames_are_decoded_strictly()
    ensures
        decoder::standard().colorspace.components() == 4,
        decoder::standard().strict,
        decoder::standard().width_limit == 4096,
        decoder::standard().height_limit == 2304,
{
}

// ---- the header of a frame -----------------------------------------------------------------

/// A segment of a JPEG that is neither a frame header nor the image itself.
pub ghost struct Segment {
    pub marker: u8,
    pub payload: Seq<u8>,
}

/// Whether such a segment can be written: its marker is one of those that carry a length, and its
/// payload fits in it.
pub open spec fn is_writable(segment: Segment) -> bool {
    let m = segment.marker;
    &&& segment.payload.len() + 2 <= 0xffff
    &&& m != 0x00 && m != 0xff
    &&& m != 0x01 && !(0xd0 <= m <= 0xda)
    &&& !(0xc0 <= m <= 0xcf) || m == 0xc4 || m == 0xc8 || m == 0xcc
}

/// A number below 65536 in two bytes, the higher one first.
pub open spec fn two_bytes(n: nat) -> Seq<u8> {
    seq![(n / 256) as u8, (n % 256) as u8]
}

/// A segment as it is written.
pub open spec fn written(segment: Segment) -> Seq<u8> {
    seq![0xffu8, segment.marker] + two_bytes(segment.payload.len() + 2) + segment.payload
}

/// Segments as they are written, one behind the other.
pub open spec fn all_written(segments: Seq<Segment>) -> Seq<u8>
    decreases segments.len(),
{
    if segments.len() == 0 {
        seq![]
    } else {
        written(segments[0]) + all_written(segments.drop_first())
    }
}

/// A frame header as it is written, up to the size: the marker, the length, the precision, and the
/// height before the width.
pub open spec fn frame_written(
    marker: u8,
    length: nat,
    precision: u8,
    width: nat,
    height: nat,
) -> Seq<u8> {
    seq![0xffu8, marker] + two_bytes(length) + seq![precision] + two_bytes(height) + two_bytes(width)
}

/// The size that is read is the size that was written: behind a start of image and any segments,
/// the frame header's, with whatever comes after it.
pub proof fn the_size_that_was_written_is_read(
    segments: Seq<Segment>,
    marker: u8,
    length: nat,
    precision: u8,
    width: nat,
    height: nat,
    rest: Seq<u8>,
)
    requires
        forall|i: int| 0 <= i < segments.len() ==> is_writable(#[trigger] segments[i]),
        0xc0 <= marker <= 0xcf && marker != 0xc4 && marker != 0xc8 && marker != 0xcc,
        8 <= length <= 0xffff,
        0 < width <= 0xffff,
        0 < height <= 0xffff,
    ensures
        jpeg::header_dimensions(
            seq![0xffu8, 0xd8u8] + all_written(segments) + frame_written(
                marker,
                length,
                precision,
                width,
                height,
            ) + rest,
        ) == Ok::<(u32, u32), JpegHeaderError>((width as u32, height as u32)),
{
    let soi = seq![0xffu8, 0xd8u8];
    let tail = frame_written(marker, length, precision, width, height) + rest;
    let data = soi + all_written(segments) + frame_written(
        marker,
        length,
        precision,
        width,
        height,
    ) + rest;
    assert(data =~= soi + all_written(segments) + tail);
    assert(data[0] == 0xff && data[1] == 0xd8);
    assert(jpeg::after_fill(data, 0) == 1) by {
        reveal_with_fuel(jpeg::after_fill, 3);
    }
    lemma_written_is_read(soi, segments, marker, length, precision, width, height, rest);
}

proof fn lemma_two_bytes(n: nat)
    requires
        n <= 0xffff,
    ensures
        two_bytes(n)[0] * 256 + two_bytes(n)[1] == n,
{
}

proof fn lemma_frame_is_read(
    head: Seq<u8>,
    marker: u8,
    length: nat,
    precision: u8,
    width: nat,
    height: nat,
    rest: Seq<u8>,
)
    requires
        0xc0 <= marker <= 0xcf && marker != 0xc4 && marker != 0xc8 && marker != 0xcc,
        8 <= length <= 0xffff,
        0 < width <= 0xffff,
        0 < height <= 0xffff,
    ensures
        jpeg::first_frame(
            head + (frame_written(marker, length, precision, width, height) + rest),
            head.len() as int,
        ) == Ok::<(u32, u32), JpegHeaderError>((width as u32, height as u32)),
{
    let frame = frame_written(marker, length, precision, width, height);
    let data = head + (frame + rest);
    let at = head.len() as int;
    reveal_with_fuel(jpeg::after_fill, 3);
    assert(forall|i: int| 0 <= i < 9 ==> data[at + i] == #[trigger] frame[i]);
    assert(data[at] == frame[0] && data[at + 1] == frame[1]);
    assert(jpeg::marker_at(data, at) == Ok::<(u8, int), JpegHeaderError>((marker, at + 2)));
    lemma_two_bytes(length);
    lemma_two_bytes(width);
    lemma_two_bytes(height);
    assert(frame[2] == two_bytes(length)[0] && frame[3] == two_bytes(length)[1]);
    assert(frame[5] == two_bytes(height)[0] && frame[6] == two_bytes(height)[1]);
    assert(frame[7] == two_bytes(width)[0] && frame[8] == two_bytes(width)[1]);
    assert(data[at + 2] == frame[2] && data[at + 3] == frame[3]);
    assert(data[at + 5] == frame[5] && data[at + 6] == frame[6]);
    assert(data[at + 7] == frame[7] && data[at + 8] == frame[8]);
    assert(jpeg::word_at(data, at + 2) == Some(length as int));
    assert(jpeg::word_at(data, at + 2 + 3) == Some(height as int));
    assert(jpeg::word_at(data, at + 2 + 5) == Some(width as int));
}

proof fn lemma_segment_is_skipped(head: Seq<u8>, segment: Segment, rest: Seq<u8>)
    requires
        is_writable(segment),
    ensures
        ({
            let data = head + written(segment) + rest;
            jpeg::first_frame(data, head.len() as int) == jpeg::first_frame(
                data,
                (head + written(segment)).len() as int,
            )
        }),
{
    let one = written(segment);
    let data = head + one + rest;
    let at = head.len() as int;
    let size = segment.payload.len() + 2;
    reveal_with_fuel(jpeg::after_fill, 3);
    assert(one.len() == size + 2);
    assert(one[0] == 0xff && one[1] == segment.marker);
    assert(data[at] == one[0] && data[at + 1] == one[1]);
    assert(jpeg::marker_at(data, at) == Ok::<(u8, int), JpegHeaderError>(
        (segment.marker, at + 2),
    ));
    lemma_two_bytes(size);
    assert(one[2] == two_bytes(size)[0] && one[3] == two_bytes(size)[1]);
    assert(data[at + 2] == one[2] && data[at + 3] == one[3]);
    assert(jpeg::word_at(data, at + 2) == Some(size as int));
    assert(jpeg::segment_end(data, at + 2, segment.marker) == Ok::<int, JpegHeaderError>(
        at + 2 + size,
    ));
}

proof fn lemma_written_is_read(
    head: Seq<u8>,
    segments: Seq<Segment>,
    marker: u8,
    length: nat,
    precision: u8,
    width: nat,
    height: nat,
    rest: Seq<u8>,
)
    requires
        forall|i: int| 0 <= i < segments.len() ==> is_writable(#[trigger] segments[i]),
        0xc0 <= marker <= 0xcf && marker != 0xc4 && marker != 0xc8 && marker != 0xcc,
        8 <= length <= 0xffff,
        0 < width <= 0xffff,
        0 < height <= 0xffff,
    ensures
        jpeg::first_frame(
            head + all_written(segments) + (frame_written(marker, length, precision, width, height)
                + rest),
            head.len() as int,
        ) == Ok::<(u32, u32), JpegHeaderError>((width as u32, height as u32)),
    decreases segments.len(),
{
    let tail = frame_written(marker, length, precision, width, height) + rest;
    let data = head + all_written(segments) + tail;
    if segments.len() == 0 {
        assert(data =~= head + tail);
        lemma_frame_is_read(head, marker, length, precision, width, height, rest);
    } else {
        let one = written(segments[0]);
        let others = segments.drop_first();
        assert forall|i: int| 0 <= i < others.len() implies is_writable(#[trigger] others[i]) by {
            assert(others[i] == segments[i + 1]);
        }
        lemma_written_is_read(head + one, others, marker, length, precision, width, height, rest);
        assert(data =~= head + one + all_written(others) + tail);
        assert(data =~= head + one + (all_written(others) + tail));
        lemma_segment_is_skipped(head, segments[0], all_written(others) + tail);
    }
}

/// What does not begin with a start of image is no JPEG, and a frame whose image begins or ends
/// before a frame header has no size.
pub proof fn without_a_start_or_a_frame_header_there_is_no_size(data: Seq<u8>, at: int)
    ensures
        data.len() >= 2 && data[0] == 0xff && data[1] != 0xff && data[1] != 0x00 && data[1] != 0xd8
            ==> jpeg::header_dimensions(data) == Err::<(u32, u32), JpegHeaderError>(
            JpegHeaderError::NotJpeg,
        ),
        data.len() >= 1 && data[0] != 0xff ==> jpeg::header_dimensions(data) == Err::<
            (u32, u32),
            JpegHeaderError,
        >(JpegHeaderError::NotAMarker { offset: 0, found: data[0] }),
        data.len() == 0 ==> jpeg::header_dimensions(data) == Err::<(u32, u32), JpegHeaderError>(
            JpegHeaderError::Truncated,
        ),
        0 <= at && at + 1 < data.len() && data[at] == 0xff && (data[at + 1] == 0xda || data[at + 1]
            == 0xd9) ==> jpeg::first_frame(data, at) == Err::<(u32, u32), JpegHeaderError>(
            JpegHeaderError::NoStartOfFrame { stopped_at: data[at + 1] },
        ),
        0 <= at && at + 1 < data.len() && data[at] == 0xff && (data[at + 1] == 0x01 || 0xd0
            <= data[at + 1] <= 0xd8) ==> jpeg::first_frame(data, at) == jpeg::first_frame(
            data,
            at + 2,
        ),
{
    reveal_with_fuel(jpeg::after_fill, 3);
}

/// A frame header or a segment whose length cannot be is an error with that length, and a frame
/// without a width or a height one with both.
pub proof fn an_impossible_header_is_refused(data: Seq<u8>, at: int, marker: u8)
    requires
        0 <= at,
        at + 6 < data.len(),
    ensures
        ({
            let length = data[at] * 256 + data[at + 1];
            let height = data[at + 3] * 256 + data[at + 4];
            let width = data[at + 5] * 256 + data[at + 6];
            let read = jpeg::frame_header(data, at, marker);
            &&& length < 8 ==> read == Err::<(u32, u32), JpegHeaderError>(
                JpegHeaderError::BadSegmentLength { marker, length: length as u16 },
            )
            &&& length >= 8 && (width == 0 || height == 0) ==> read == Err::<
                (u32, u32),
                JpegHeaderError,
            >(JpegHeaderError::ZeroDimension { width: width as u32, height: height as u32 })
            &&& length >= 8 && width != 0 && height != 0 ==> read == Ok::<
                (u32, u32),
                JpegHeaderError,
            >((width as u32, height as u32))
            &&& length < 2 ==> jpeg::segment_end(data, at, marker) == Err::<int, JpegHeaderError>(
                JpegHeaderError::BadSegmentLength { marker, length: length as u16 },
            )
            &&& length >= 2 && at + length > data.len() ==> jpeg::segment_end(data, at, marker)
                == Err::<int, JpegHeaderError>(JpegHeaderError::Truncated)
        }),
{
}

// ---- single decisions ----------------------------------------------------------------------

/// A wait for a value ends at once with one, and with a slot that is closed. Otherwise it goes on to
/// the deadline and no further, or for the whole time where there is no deadline.
pub proof fn a_wait_for_a_value_ends_at_its_deadline<T>(
    slot: SlotView<T>,
    timeout: Nanos,
    deadline: Option<Nanos>,
    now: Nanos,
)
    ensures
        slot.pending is Some || slot.closed ==> Slot::still_waits(slot, timeout, deadline, now) is None,
        slot.pending is None && !slot.closed && deadline is None ==> Slot::still_waits(
            slot,
            timeout,
            deadline,
            now,
        ) == Some(timeout),
        slot.pending is None && !slot.closed && deadline is Some && deadline->0 <= now
            ==> Slot::still_waits(slot, timeout, deadline, now) is None,
        slot.pending is None && !slot.closed && deadline is Some && now < deadline->0
            ==> Slot::still_waits(slot, timeout, deadline, now) is Some && now + Slot::still_waits(
            slot,
            timeout,
            deadline,
            now,
        )->0 == deadline->0,
{
}

/// Buffers are counted one by one, up to sixty-four of them. The first index that is called invalid is
/// their number, and every other refusal is a failure.
pub proof fn buffers_are_counted_up_to_the_first_invalid_one(
    index: u32,
    reply: Result<(), IoError>,
)
    requires
        index < 64,
    ensures
        reply is Ok && index < 63 ==> v4l2::buffer_answer(index, reply) is Next
            && v4l2::buffer_answer(index, reply)->Next_0 == index + 1,
        reply is Ok && index == 63 ==> v4l2::buffer_answer(index, reply) is Done
            && v4l2::buffer_answer(index, reply)->Done_0 == 64,
        reply is Err && reply->Err_0.errno == Some(22i32) ==> v4l2::buffer_answer(index, reply)
            == v4l2::BufferProbe::Done(index),
        reply is Err && reply->Err_0.errno != Some(22i32) ==> v4l2::buffer_answer(index, reply)
            is Failed,
{
}

/// A poll takes the whole milliseconds that are left, none where the deadline has passed, and never
/// more than a poll can be told.
pub proof fn a_poll_takes_what_is_left(timeout: Nanos, deadline: Option<Nanos>, now: Nanos)
    ensures
        0 <= v4l2::poll_time(timeout, deadline, now) <= 0x7fff_ffff,
        deadline is None && timeout < 0x8000_0000 * 1_000_000 ==> v4l2::poll_time(
            timeout,
            deadline,
            now,
        ) * 1_000_000 <= timeout < (v4l2::poll_time(timeout, deadline, now) + 1) * 1_000_000,
        deadline is Some && now >= deadline->0 ==> v4l2::poll_time(timeout, deadline, now) == 0,
        deadline is Some && now < deadline->0 && deadline->0 - now < 0x8000_0000 * 1_000_000
            ==> v4l2::poll_time(timeout, deadline, now) * 1_000_000 <= deadline->0 - now < (
        v4l2::poll_time(timeout, deadline, now) + 1) * 1_000_000,
        deadline is None && timeout >= 0x8000_0000 * 1_000_000 ==> v4l2::poll_time(
            timeout,
            deadline,
            now,
        ) == 0x7fff_ffff,
{
}

/// A poll is repeated after a signal and after events that nobody asked for, until the deadline; what
/// came back for good is never polled for again.
pub proof fn a_poll_is_repeated_until_the_deadline(
    reply: v4l2::PollReply,
    deadline: Option<Nanos>,
    now: Nanos,
)
    ensures
        deadline is Some && now >= deadline->0 ==> !v4l2::polls_again(reply, deadline, now),
        reply is Interrupted && (deadline is None || now < deadline->0) ==> v4l2::polls_again(
            reply,
            deadline,
            now,
        ),
        reply is Failed || reply is Nothing ==> !v4l2::polls_again(reply, deadline, now),
        reply is Events && v4l2::has_event(reply->Events_0, 1i16) ==> !v4l2::polls_again(
            reply,
            deadline,
            now,
        ),
{
}

/// A thread that is to stop does nothing else, and one without a device looks for it before it reads.
pub proof fn a_pass_without_a_device_looks_for_it(stopping: bool, closed: bool, has_source: bool)
    ensures
        Capture::pass_start(stopping, closed, has_source) == pipeline::LoopStart::Exit <==> stopping
            || closed,
        !stopping && !closed ==> (Capture::pass_start(stopping, closed, has_source)
            == pipeline::LoopStart::Step <==> has_source),
        !stopping && !closed ==> (Capture::pass_start(stopping, closed, has_source)
            == pipeline::LoopStart::Reconnect <==> !has_source),
{
}

/// A frame that was taken is decoded, also while the thread is to stop; without one the thread waits
/// again unless there is nothing to wait for.
pub proof fn a_taken_frame_is_decoded(
    taken: Option<CompressedFrame>,
    closed: bool,
    stopping: bool,
)
    ensures
        taken is Some ==> pipeline::decode_step(taken, closed, stopping)
            == pipeline::DecodeStep::Decode(taken->0),
        taken is None ==> (pipeline::decode_step(taken, closed, stopping) is Exit <==> closed
            || stopping),
        taken is None ==> (pipeline::decode_step(taken, closed, stopping) is Again <==> !closed
            && !stopping),
{
}

/// One for a value that is pending, and none without.
pub open spec fn pending_in<T>(slot: SlotView<T>) -> int {
    if slot.pending is Some {
        1
    } else {
        0
    }
}

/// No frame goes missing on the way to the decoder: what was captured is what was dropped, what is
/// pending and what was taken, and putting a frame in changes nothing of the last.
pub proof fn a_captured_frame_is_pending_or_counted_as_dropped(
    counters: Counters,
    slot: SlotView<CompressedFrame>,
    frame: CompressedFrame,
    now: Nanos,
)
    requires
        counters.has_room(),
        !slot.closed,
    ensures
        ({
            let after = counters.handed_on(slot, frame, now);
            let then = slot.put(frame).0;
            &&& after.frames_captured == counters.frames_captured + 1
            &&& after.frames_captured - after.dropped_pre_decode - pending_in(then)
                == counters.frames_captured - counters.dropped_pre_decode - pending_in(slot)
            &&& then.pending == Some(frame)
            &&& after.frames_decoded == counters.frames_decoded
            &&& after.decode_errors == counters.decode_errors
            &&& after.dropped_post_decode == counters.dropped_post_decode
        }),
{
}

/// No picture goes missing on the way to the screen: what was decoded is what was dropped, what is
/// pending and what was taken. A slot that is closed drops nothing.
pub proof fn a_decoded_frame_is_pending_or_counted_as_dropped(
    counters: Counters,
    slot: SlotView<DecodedFrame>,
    frame: DecodedFrame,
)
    requires
        counters.has_room(),
    ensures
        ({
            let after = counters.decoded_into(slot);
            let then = slot.put(frame).0;
            &&& after.frames_decoded == counters.frames_decoded + 1
            &&& !slot.closed ==> after.frames_decoded - after.dropped_post_decode - pending_in(then)
                == counters.frames_decoded - counters.dropped_post_decode - pending_in(slot)
            &&& slot.closed ==> after.dropped_post_decode == counters.dropped_post_decode
            &&& after.frames_captured == counters.frames_captured
            &&& after.dropped_pre_decode == counters.dropped_pre_decode
            &&& after.decode_errors == counters.decode_errors
        }),
{
}

/// An opening asks for the node, the format, the rate that is, the rate that should be and the
/// stream, in this order, and each one only after the one before it was granted exactly.
pub proof fn an_opening_takes_no_substitute(attempt: OpenAttempt, reply: OpenReply)
    requires
        attempt.answered_by(reply),
    ensures
        reply is Failed ==> !attempt.accepts(reply),
        reply is Format ==> (attempt.accepts(reply) <==> reply->Format_0.fourcc@ == "MJPG"@
            && reply->Format_0.width == attempt.width && reply->Format_0.height == attempt.height),
        reply is Buffers ==> (attempt.accepts(reply) <==> reply->Buffers_0 >= 2),
        reply is Interval && attempt.call == OpenCall::ReadInterval ==> attempt.accepts(reply),
        reply is Interval && attempt.call == OpenCall::SetInterval ==> (attempt.accepts(reply)
            <==> reply->Interval_0.numerator != 0 && reply->Interval_0.denominator
            == reply->Interval_0.numerator * attempt.fps),
        OpenAttempt::following(OpenCall::Node) == Some(OpenCall::SetFormat),
        OpenAttempt::following(OpenCall::SetFormat) == Some(OpenCall::ReadInterval),
        OpenAttempt::following(OpenCall::ReadInterval) == Some(OpenCall::SetInterval),
        OpenAttempt::following(OpenCall::SetInterval) == Some(OpenCall::StartStream),
        OpenAttempt::following(OpenCall::StartStream) is None,
{
    if attempt.call == OpenCall::SetInterval && reply is Interval {
        let (n, d) = (reply->Interval_0.numerator as int, reply->Interval_0.denominator as int);
        let fps = attempt.fps as int;
        assert(fps * n == n * fps) by (nonlinear_arith);
    }
}

/// A broken stream stays broken until it is rebuilt. A device that is gone has no stream to rebuild,
/// and a wait that only took too long leaves the stream as it was; a dequeue that did not work never
/// does.
pub proof fn a_stream_breaks_by_its_own_errors(e: CaptureError, dequeuing: bool)
    ensures
        V4l2Source::breaks(true, e, dequeuing),
        e is Disconnected ==> !V4l2Source::breaks(false, e, dequeuing),
        e is Io ==> V4l2Source::breaks(false, e, dequeuing),
        e is Timeout ==> V4l2Source::breaks(false, e, dequeuing) == dequeuing,
        e is BadFrame || e is Config ==> V4l2Source::breaks(false, e, dequeuing) == dequeuing,
{
}

} // verus!
