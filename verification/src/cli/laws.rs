//! What the commands promise, over whole runs of them.

use vstd::prelude::*;

use super::devices;
use super::keys::{
    self, CapsLockPolicy, Compiled, Delivery, DeliveryEvent, DeliveryStep, KeyArgs, KeysEvent,
    KeysStep, Progress, Script, Stage, StepView, TargetInfo,
};
use super::shot::{
    self, Judgement, Picker, ShotError, ShotEvent, ShotPolicy, ShotStep, TargetView,
};
use crate::capture::{jpeg, CaptureError, CompressedFrame};
use crate::clock::Nanos;
use crate::discovery;
use crate::path;
use crate::text;

verus! {

// ---- delivering a script -------------------------------------------------------------------

/// Something that happened and what was asked for next.
pub ghost struct Exchange {
    pub event: KeysEvent,
    pub step: KeysStep,
}

/// The events of a run.
pub open spec fn events_of(run: Seq<Exchange>) -> Seq<KeysEvent> {
    Seq::new(run.len(), |i: int| run[i].event)
}

/// Whether `event` is what comes of doing `step`: a pause is followed by its end, a report by its
/// acknowledgement, and nothing follows the end.
pub open spec fn follows(step: KeysStep, event: KeysEvent) -> bool {
    match step {
        KeysStep::Pause(_) => event is Paused,
        KeysStep::Send(_) => event is Acked,
        KeysStep::Again => event is Ready,
        _ => false,
    }
}

/// Whether exchange `i` comes of what was asked for before it.
pub open spec fn obeys(run: Seq<Exchange>, i: int) -> bool {
    if i == 0 {
        run[0].event is Ready
    } else {
        follows(run[i - 1].step, run[i].event)
    }
}

/// Whether what was asked for was done, from the beginning on.
pub open spec fn obeyed(run: Seq<Exchange>) -> bool {
    forall|i: int| 0 <= i < run.len() ==> #[trigger] obeys(run, i)
}

/// How far the script has got before exchange `i`.
pub open spec fn progress_at(steps: Seq<StepView>, run: Seq<Exchange>, i: int) -> Progress {
    keys::after_events(
        Progress { at: 0, sent: 0, paced: false },
        steps,
        events_of(run).take(i),
    )
}

/// Whether the step of exchange `i` is the one that follows there.
pub open spec fn answers(
    steps: Seq<StepView>,
    delay: Nanos,
    run: Seq<Exchange>,
    i: int,
) -> bool {
    progress_at(steps, run, i).leads_to(steps, delay, run[i].event, run[i].step)
}

/// Whether each step of a run is the one that follows.
pub open spec fn answered(steps: Seq<StepView>, delay: Nanos, run: Seq<Exchange>) -> bool {
    forall|i: int| 0 <= i < run.len() ==> #[trigger] answers(steps, delay, run, i)
}

/// How long a run was asked to pause in all.
pub open spec fn paused(run: Seq<Exchange>) -> nat
    decreases run.len(),
{
    if run.len() == 0 {
        0
    } else {
        paused(run.drop_last()) + match run.last().step {
            KeysStep::Pause(d) => d as nat,
            _ => 0,
        }
    }
}

/// Which steps of the script a run was asked to send, in order.
pub open spec fn sends(run: Seq<Exchange>) -> Seq<int>
    decreases run.len(),
{
    if run.len() == 0 {
        seq![]
    } else {
        match run.last().step {
            KeysStep::Send(k) => sends(run.drop_last()).push(k as int),
            _ => sends(run.drop_last()),
        }
    }
}

/// The waits of a script, added up.
pub open spec fn waits_in(steps: Seq<StepView>) -> nat
    decreases steps.len(),
{
    if steps.len() == 0 {
        0
    } else {
        waits_in(steps.drop_last()) + match steps.last() {
            StepView::Wait(t) => t as nat,
            StepView::Send { .. } => 0,
        }
    }
}

/// The places of the reports in a script.
pub open spec fn reports_of(steps: Seq<StepView>) -> Seq<int>
    decreases steps.len(),
{
    if steps.len() == 0 {
        seq![]
    } else {
        match steps.last() {
            StepView::Send { .. } => reports_of(steps.drop_last()).push(steps.len() - 1),
            StepView::Wait(_) => reports_of(steps.drop_last()),
        }
    }
}

/// The pauses between `n` reports.
pub open spec fn gaps(delay: Nanos, n: nat) -> nat {
    if n == 0 {
        0
    } else {
        (delay * (n - 1)) as nat
    }
}

/// Where a run stands behind its last exchange.
spec fn stands(steps: Seq<StepView>, delay: Nanos, run: Seq<Exchange>) -> bool {
    let p = progress_at(steps, run, run.len() as int);
    let done = steps.take(p.at as int);
    let sent = reports_of(done);
    let slept = waits_in(done) + gaps(delay, p.sent as nat);
    &&& p.at <= steps.len()
    &&& p.sent == sent.len()
    &&& p.paced ==> p.at < steps.len() && steps[p.at as int] is Send && p.sent > 0
    &&& (run.len() == 0 || run.last().step is Again) ==> sends(run) == sent && paused(run) == slept
        + (if p.paced {
        delay as nat
    } else {
        0
    })
    &&& run.len() > 0 ==> match run.last().step {
        KeysStep::Pause(d) => {
            &&& p.at < steps.len() && !p.paced
            &&& sends(run) == sent
            &&& paused(run) == slept + d
            &&& match steps[p.at as int] {
                StepView::Wait(t) => d == t,
                StepView::Send { .. } => d == delay && p.sent > 0,
            }
        },
        KeysStep::Send(k) => {
            &&& k == p.at && p.at < steps.len() && steps[p.at as int] is Send
            &&& sends(run) == sent.push(p.at as int)
            &&& paused(run) == slept + (if p.sent > 0 {
                delay as nat
            } else {
                0
            })
        },
        KeysStep::Delivered(n) => {
            &&& p.at == steps.len() && n == p.sent && !p.paced
            &&& sends(run) == sent && paused(run) == slept
        },
        _ => true,
    }
}

proof fn lemma_stands(steps: Seq<StepView>, delay: Nanos, run: Seq<Exchange>)
    requires
        steps.len() <= usize::MAX,
        obeyed(run),
        answered(steps, delay, run),
    ensures
        stands(steps, delay, run),
    decreases run.len(),
{
    if run.len() == 0 {
        assert(events_of(run).take(0) =~= seq![]);
        assert(steps.take(0) =~= seq![]);
    } else {
        let before = run.drop_last();
        let n = before.len() as int;
        lemma_shorter_run(steps, delay, run);
        assert(events_of(before).take(n) =~= events_of(run).take(n));
        assert(obeys(run, n));
        assert(answers(steps, delay, run, n));
        lemma_stands(steps, delay, before);
        let p = progress_at(steps, before, n);
        let last = run[n];
        let all = events_of(run).take(n + 1);
        assert(all.drop_last() =~= events_of(run).take(n));
        assert(all.last() == last.event);
        assert(progress_at(steps, run, n) == p);
        let q = progress_at(steps, run, n + 1);
        assert(q == p.after(steps, last.event));
        assert(p.leads_to(steps, delay, last.event, last.step));
        if n > 0 {
            assert(run[n - 1] == before[n - 1]);
            assert(before.last() == before[n - 1]);
        }
        if p.at < steps.len() {
            lemma_one_step_on(steps, p.at as int);
        }
        if p.sent > 0 {
            assert(delay * (p.sent - 1) + delay == delay * p.sent) by (nonlinear_arith);
        }
        assert(delay * 0 == 0) by (nonlinear_arith);
    }
}

proof fn lemma_one_step_on(steps: Seq<StepView>, k: int)
    requires
        0 <= k < steps.len(),
    ensures
        waits_in(steps.take(k + 1)) == waits_in(steps.take(k)) + match steps[k] {
            StepView::Wait(t) => t as nat,
            StepView::Send { .. } => 0,
        },
        reports_of(steps.take(k + 1)) == match steps[k] {
            StepView::Send { .. } => reports_of(steps.take(k)).push(k),
            StepView::Wait(_) => reports_of(steps.take(k)),
        },
        reports_of(steps.take(k)).len() <= k,
{
    assert(steps.take(k + 1).drop_last() =~= steps.take(k));
    lemma_reports_bound(steps.take(k));
}

proof fn lemma_reports_bound(steps: Seq<StepView>)
    ensures
        reports_of(steps).len() <= steps.len(),
    decreases steps.len(),
{
    if steps.len() > 0 {
        lemma_reports_bound(steps.drop_last());
    }
}

/// A script that was delivered has sent each of its reports once, in the order of the script, has
/// waited out every one of its waits, and has paused between each two reports.
pub proof fn a_delivered_script_was_sent_in_order_and_waited_out(
    steps: Seq<StepView>,
    delay: Nanos,
    run: Seq<Exchange>,
    n: usize,
)
    requires
        steps.len() <= usize::MAX,
        obeyed(run),
        answered(steps, delay, run),
        run.len() > 0,
        run.last().step == KeysStep::Delivered(n),
    ensures
        sends(run) == reports_of(steps),
        n == reports_of(steps).len(),
        paused(run) == waits_in(steps) + gaps(delay, n as nat),
{
    lemma_stands(steps, delay, run);
    assert(steps.take(steps.len() as int) =~= steps);
}

/// However a run ends, what it sent is a beginning of the script: no report out of turn, and none
/// twice.
pub proof fn what_was_sent_is_a_beginning_of_the_script(
    steps: Seq<StepView>,
    delay: Nanos,
    run: Seq<Exchange>,
)
    requires
        steps.len() <= usize::MAX,
        obeyed(run),
        answered(steps, delay, run),
    ensures
        sends(run).len() <= reports_of(steps).len(),
        sends(run) == reports_of(steps).take(sends(run).len() as int),
    decreases run.len(),
{
    lemma_stands(steps, delay, run);
    let p = progress_at(steps, run, run.len() as int);
    lemma_reports_prefix(steps, p.at as int);
    if run.len() > 0 {
        match run.last().step {
            KeysStep::Failed { .. } => {
                let before = run.drop_last();
                lemma_shorter_run(steps, delay, run);
                what_was_sent_is_a_beginning_of_the_script(steps, delay, before);
            },
            KeysStep::Send(_) => {
                lemma_one_step_on(steps, p.at as int);
                lemma_reports_prefix(steps, p.at + 1);
            },
            _ => {},
        }
    }
}

proof fn lemma_shorter_run(steps: Seq<StepView>, delay: Nanos, run: Seq<Exchange>)
    requires
        run.len() > 0,
        obeyed(run),
        answered(steps, delay, run),
    ensures
        obeyed(run.drop_last()),
        answered(steps, delay, run.drop_last()),
{
    let before = run.drop_last();
    assert forall|i: int| 0 <= i < before.len() implies #[trigger] obeys(before, i) by {
        assert(obeys(run, i));
        assert(run[i] == before[i]);
        if i > 0 {
            assert(run[i - 1] == before[i - 1]);
        }
    }
    assert forall|i: int| 0 <= i < before.len() implies #[trigger] answers(
        steps,
        delay,
        before,
        i,
    ) by {
        assert(answers(steps, delay, run, i));
        assert(run[i] == before[i]);
        assert(events_of(before).take(i) =~= events_of(run).take(i));
    }
}

proof fn lemma_reports_prefix(steps: Seq<StepView>, n: int)
    requires
        0 <= n <= steps.len(),
    ensures
        reports_of(steps.take(n)).len() <= reports_of(steps).len(),
        reports_of(steps.take(n)) == reports_of(steps).take(reports_of(steps.take(n)).len() as int),
    decreases steps.len(),
{
    if n == steps.len() {
        assert(steps.take(n) =~= steps);
        assert(reports_of(steps).take(reports_of(steps).len() as int) =~= reports_of(steps));
    } else {
        let head = steps.drop_last();
        lemma_reports_prefix(head, n);
        assert(head.take(n) =~= steps.take(n));
        let k = reports_of(steps.take(n)).len() as int;
        assert(reports_of(steps).take(k) =~= reports_of(head).take(k));
    }
}

/// A signal ends a run before its next report unless the pause in front of it is already over, and
/// so does a report that was not acknowledged; what went wrong with it is told.
pub proof fn a_signal_or_a_lost_report_ends_the_run(
    p: Progress,
    steps: Seq<StepView>,
    delay: Nanos,
    event: KeysEvent,
    step: KeysStep,
)
    requires
        p.at < steps.len(),
        p.leads_to(steps, delay, event, step),
    ensures
        event == (KeysEvent::Ready { interrupted: true }) && !p.paced ==> step is Failed,
        event == (KeysEvent::Paused { interrupted: true }) ==> step is Failed,
        event matches KeysEvent::Acked(Err(e)) ==> (step matches KeysStep::Failed {
            cause,
            ..
        } && cause == Some(e)),
        step is Failed ==> !(event matches KeysEvent::Ready { interrupted } && !interrupted) && !(
        event matches KeysEvent::Paused { interrupted } && !interrupted) && event
            != KeysEvent::Acked(Ok(())),
{
}

/// The step behind `Ready` is what the script says: at a wait, a pause of exactly its length; at a
/// report, a pause between it and the one before, and then the report itself.
pub proof fn a_wait_is_waited_out_whole(
    p: Progress,
    steps: Seq<StepView>,
    delay: Nanos,
    step: KeysStep,
)
    requires
        p.at < steps.len(),
        p.leads_to(steps, delay, KeysEvent::Ready { interrupted: false }, step),
    ensures
        steps[p.at as int] is Wait && !p.paced ==> step == KeysStep::Pause(
            steps[p.at as int]->Wait_0,
        ),
        steps[p.at as int] is Send && !p.paced && p.sent > 0 ==> step == KeysStep::Pause(delay),
        steps[p.at as int] is Send && (p.paced || p.sent == 0) ==> step == KeysStep::Send(p.at),
{
}

/// A report that was not acknowledged is named by its label, with how many of how many had been
/// delivered before it.
pub proof fn a_lost_report_is_named_and_counted(
    p: Progress,
    steps: Seq<StepView>,
    delay: Nanos,
    why: String,
    step: KeysStep,
)
    requires
        p.at < steps.len(),
        p.leads_to(steps, delay, KeysEvent::Acked(Err(why)), step),
    ensures
        step is Failed,
        step->cause == Some(why),
        text::mentions(step->context@, steps[p.at as int]->label),
        text::mentions(
            step->context@,
            text::decimal(p.sent as nat) + " of "@ + text::decimal(keys::reports_in(steps)),
        ),
{
    reveal(text::mentions);
    let label = steps[p.at as int]->label;
    let count = text::decimal(p.sent as nat) + " of "@ + text::decimal(keys::reports_in(steps));
    let said = step->context@;
    assert(said.subrange(0, 0int + label.len()) =~= label);
    let at = label.len() as int + " was not acknowledged; "@.len();
    assert(said.subrange(at, at + count.len()) =~= count);
}

// ---- from the question to the release ------------------------------------------------------

/// A delivery that meets with nothing but success opens, puts the frames in step, asks, sends and
/// releases, one after the other, and ends without a failure.
pub proof fn a_delivery_asks_before_it_sends_and_releases_after_it(
    compiled: &Compiled,
    how: Delivery,
    serial: Seq<char>,
    info: TargetInfo,
    sent: usize,
    steps: Seq<DeliveryStep>,
    stages: Seq<Stage>,
)
    requires
        !how.dry_run,
        info.target_connected,
        keys::encoding(compiled, info.caps_lock, how.caps_lock) is Ok,
        steps.len() == 6,
        stages.len() == 7,
        stages[0] is Ready,
        stages[0].leads_to(compiled, how, serial, DeliveryEvent::Begin, steps[0], stages[1]),
        stages[1].leads_to(compiled, how, serial, DeliveryEvent::Opened(Ok(())), steps[1], stages[2]),
        stages[2].leads_to(compiled, how, serial, DeliveryEvent::Synced(Ok(())), steps[2], stages[3]),
        stages[3].leads_to(
            compiled,
            how,
            serial,
            DeliveryEvent::Answered(Ok(info)),
            steps[3],
            stages[4],
        ),
        stages[4].leads_to(compiled, how, serial, DeliveryEvent::Ran(Ok(sent)), steps[4], stages[5]),
        stages[5].leads_to(
            compiled,
            how,
            serial,
            DeliveryEvent::Released(None),
            steps[5],
            stages[6],
        ),
    ensures
        steps[0] is Open,
        steps[1] is Sync,
        steps[2] is Ask,
        steps[3] is Send,
        steps[4] is Release,
        steps[5] is End,
        steps[5]->failure is None,
        stages[6] is Over,
{
}

/// Any failure before the first report ends the delivery with what went wrong, and there is nothing
/// to release.
pub proof fn a_refusal_comes_before_any_report(
    stage: Stage,
    compiled: &Compiled,
    how: Delivery,
    serial: Seq<char>,
    event: DeliveryEvent,
    step: DeliveryStep,
    next: Stage,
)
    requires
        stage.leads_to(compiled, how, serial, event, step, next),
        event matches DeliveryEvent::Opened(Err(_)) || event matches DeliveryEvent::Synced(Err(_))
            || event matches DeliveryEvent::Answered(Err(_)),
    ensures
        step is End,
        step->note is None,
        step->failure is Some,
        next is Over,
        event matches DeliveryEvent::Opened(Err(e)) ==> step->failure->0.cause == Some(e),
        event matches DeliveryEvent::Synced(Err(e)) ==> step->failure->0.cause == Some(e),
        event matches DeliveryEvent::Answered(Err(e)) ==> step->failure->0.cause == Some(e),
        text::mentions(step->failure->0.context@, serial),
{
    reveal(text::mentions);
    let said = step->failure->0.context@;
    reveal_strlit("opening the CH9329 serial link on ");
    reveal_strlit("resynchronising the CH9329 frame parser on ");
    reveal_strlit("GET_INFO on ");
    if event is Opened {
        assert(said.subrange(34, 34int + serial.len()) =~= serial);
    } else if event is Synced {
        assert(said.subrange(43, 43int + serial.len()) =~= serial);
    } else {
        assert(said.subrange(12, 12int + serial.len()) =~= serial);
    }
}

/// With no target behind the device nothing is sent, whatever CapsLock and the policy.
pub proof fn without_a_target_nothing_is_sent(
    stage: Stage,
    compiled: &Compiled,
    how: Delivery,
    serial: Seq<char>,
    info: TargetInfo,
    step: DeliveryStep,
    next: Stage,
)
    requires
        !info.target_connected,
        stage.leads_to(compiled, how, serial, DeliveryEvent::Answered(Ok(info)), step, next),
    ensures
        step is End,
        step->failure is Some,
        next is Over,
{
}

/// With CapsLock on at the target and a policy to compensate, it is the second compilation of a text
/// that is sent; with it off, it is the first.
pub proof fn a_compensated_text_is_sent_for_caps_lock_on(
    stage: Stage,
    compiled: &Compiled,
    alt: Script,
    how: Delivery,
    serial: Seq<char>,
    info: TargetInfo,
    step: DeliveryStep,
    next: Stage,
)
    requires
        info.target_connected,
        compiled.compensated == Some(alt),
        compiled.script@ != alt@,
        how.caps_lock == CapsLockPolicy::Compensate,
        stage.leads_to(compiled, how, serial, DeliveryEvent::Answered(Ok(info)), step, next),
    ensures
        step == (DeliveryStep::Send { compensated: info.caps_lock }),
{
}

/// The plans of the commands are what was asked for: the delay in milliseconds, the dry run, and for
/// a text its two compilations, each in its place; the error of the first comes before that of the
/// second.
pub proof fn a_plan_is_what_was_asked_for(
    args: KeyArgs,
    how: Delivery,
    script: Script,
    alt: Script,
    e: String,
    other: String,
)
    ensures
        keys::key_plan(args, Ok(script)) matches Ok(plan) && plan.how.delay == args.delay_ms
            * 1_000_000 && plan.how.dry_run == args.dry_run && plan.compiled.script == script
            && plan.compiled.compensated is None,
        keys::key_plan(args, Err(e)) is Err && keys::key_plan(args, Err(e))->Err_0 == e,
        keys::text_plan(how, Ok(script), Ok(alt)) matches Ok(plan) && plan.how == how
            && plan.compiled.script == script && plan.compiled.compensated == Some(alt),
        keys::text_plan(how, Err(e), Ok(alt)) is Err && keys::text_plan(
            how,
            Err(e),
            Ok(alt),
        )->Err_0 == e,
        keys::text_plan(how, Err(e), Err(other)) is Err && keys::text_plan(
            how,
            Err(e),
            Err(other),
        )->Err_0 == e,
        keys::text_plan(how, Ok(script), Err(e)) is Err && keys::text_plan(
            how,
            Ok(script),
            Err(e),
        )->Err_0 == e,
        keys::millis(args.delay_ms) == args.delay_ms * 1_000_000,
{
    assert(args.delay_ms * 1_000_000 <= Nanos::MAX);
}

// ---- which frame is kept -------------------------------------------------------------------

/// A frame is whole by its end alone: zero bytes behind it change nothing, and any other byte makes
/// it whole only as the second half of the marker.
pub proof fn a_frame_is_whole_by_its_end(jpeg: Seq<u8>, byte: u8)
    ensures
        shot::is_whole(jpeg.push(0)) == shot::is_whole(jpeg),
        byte != 0 ==> (shot::is_whole(jpeg.push(byte)) <==> jpeg.len() > 0 && jpeg.last() == 0xff
            && byte == 0xd9),
        shot::is_whole(jpeg) ==> jpeg.len() >= 2,
{
    let zero = jpeg.push(0);
    if shot::is_whole(jpeg) {
        let n = choose|n: int|
            #![trigger jpeg[n - 1]]
            2 <= n <= jpeg.len() && jpeg[n - 2] == 0xFF && jpeg[n - 1] == 0xD9 && (forall|k: int|
                n <= k < jpeg.len() ==> jpeg[k] == 0);
        assert(zero[n - 1] == 0xD9 && zero[n - 2] == 0xFF);
    }
    if shot::is_whole(zero) {
        let n = choose|n: int|
            #![trigger zero[n - 1]]
            2 <= n <= zero.len() && zero[n - 2] == 0xFF && zero[n - 1] == 0xD9 && (forall|k: int|
                n <= k < zero.len() ==> zero[k] == 0);
        assert(n <= jpeg.len());
        assert(jpeg[n - 1] == zero[n - 1] && jpeg[n - 2] == zero[n - 2]);
        assert forall|k: int| n <= k < jpeg.len() implies jpeg[k] == 0 by {
            assert(zero[k] == jpeg[k]);
        }
    }
    if byte != 0 {
        let more = jpeg.push(byte);
        let len = more.len() as int;
        if shot::is_whole(more) {
            let n = choose|n: int|
                #![trigger more[n - 1]]
                2 <= n <= more.len() && more[n - 2] == 0xFF && more[n - 1] == 0xD9 && (forall|
                    k: int,
                |
                    n <= k < more.len() ==> more[k] == 0);
            if n < len {
                assert(more[len - 1] == 0);
            }
        } else if jpeg.len() > 0 && jpeg.last() == 0xff && byte == 0xd9 {
            assert(more[len - 1] == 0xd9 && more[len - 2] == 0xff);
        }
    }
}

/// Whether a frame is whole, and its own header gives this size, which is not over the ceiling.
pub open spec fn is_good(jpeg: Seq<u8>, width: u32, height: u32) -> bool {
    &&& shot::is_whole(jpeg)
    &&& jpeg::header_dimensions(jpeg) == Ok::<(u32, u32), jpeg::JpegHeaderError>((width, height))
    &&& width <= 4096 && height <= 2304
}

/// A good frame of the right size is kept once the frames to discard are through, and of any size
/// where any will do; and it is kept as it is, with its own size.
pub proof fn the_first_good_frame_is_kept(
    p: Picker,
    frame: CompressedFrame,
    width: u32,
    height: u32,
    step: ShotStep,
)
    requires
        p.skipped >= p.policy.skip,
        is_good(frame.jpeg@, width, height),
        p.negotiated is None || p.negotiated == Some((width, height)),
        p.leads_to(ShotEvent::Arrived(Ok(frame)), step),
    ensures
        step matches ShotStep::Kept(kept) && kept.jpeg == frame.jpeg && kept.width == width
            && kept.height == height && kept.skipped == p.skipped && kept.discarded
            == p.discarded && kept.mismatched == p.mismatched && kept.restarted == p.restarted,
{
}

/// Nothing else is kept: a frame among those to discard, one that is cut off, one without a size of
/// its own, one over the ceiling and one of another size than the negotiated one are not. All but the
/// last are counted as skipped.
pub proof fn nothing_but_a_good_frame_is_kept(p: Picker, frame: CompressedFrame, step: ShotStep)
    requires
        p.leads_to(ShotEvent::Arrived(Ok(frame)), step),
        p.skipped < u32::MAX,
        p.mismatched < u32::MAX,
    ensures
        ({
            let after = p.after(ShotEvent::Arrived(Ok(frame)));
            let read = jpeg::header_dimensions(frame.jpeg@);
            let unseen = p.skipped < p.policy.skip;
            let spoilt = !shot::is_whole(frame.jpeg@) || !(read matches Ok((w, h)) && w <= 4096 && h
                <= 2304);
            &&& unseen || spoilt ==> step is Clock && after.skipped == p.skipped + 1
                && after.mismatched == p.mismatched && after.restarted == p.restarted
            &&& !unseen && !spoilt && p.negotiated is Some && p.negotiated != Some(read->Ok_0)
                ==> !(step is Kept) && after.mismatched == p.mismatched + 1 && after.skipped
                == p.skipped
        }),
{
}

/// The arrivals of these frames.
pub open spec fn arrivals(frames: Seq<CompressedFrame>) -> Seq<ShotEvent> {
    Seq::new(frames.len(), |i: int| ShotEvent::Arrived(Ok(frames[i])))
}

/// The frames to discard are the first ones, as many as the policy says, whatever they hold.
pub proof fn the_first_frames_are_discarded_unseen(
    policy: ShotPolicy,
    negotiated: Option<(u32, u32)>,
    started: Nanos,
    deadline: Nanos,
    frames: Seq<CompressedFrame>,
)
    requires
        frames.len() <= policy.skip,
    ensures
        ({
            let p = shot::after_all(
                Picker::fresh(policy, negotiated, started, deadline),
                arrivals(frames),
            );
            &&& p.skipped == frames.len()
            &&& p.mismatched == 0 && p.discarded == 0 && !p.restarted
            &&& p.policy == policy
            &&& p.negotiated == (if policy.any_size {
                None
            } else {
                negotiated
            })
        }),
    decreases frames.len(),
{
    if frames.len() > 0 {
        the_first_frames_are_discarded_unseen(
            policy,
            negotiated,
            started,
            deadline,
            frames.drop_last(),
        );
        assert(arrivals(frames).drop_last() =~= arrivals(frames.drop_last()));
        assert(arrivals(frames).last() == ShotEvent::Arrived(Ok(frames.last())));
    }
}

/// Whether a frame is good but for its size.
pub open spec fn is_of_another_size(frame: CompressedFrame, size: (u32, u32)) -> bool {
    exists|w: u32, h: u32| is_good(frame.jpeg@, w, h) && (w != size.0 || h != size.1)
}

/// Whether all these frames are.
pub open spec fn all_of_another_size(frames: Seq<CompressedFrame>, size: (u32, u32)) -> bool {
    forall|i: int| 0 <= i < frames.len() ==> is_of_another_size(#[trigger] frames[i], size)
}

/// Frames of another size buy one restart of the stream and then the end: the restart at the frame
/// that makes up its number, the end at the one that makes up its own, and nothing at any other.
pub proof fn wrong_sizes_buy_one_restart_and_then_the_end(
    start: Picker,
    size: (u32, u32),
    frames: Seq<CompressedFrame>,
    width: u32,
    height: u32,
    step: ShotStep,
)
    requires
        start.skipped >= start.policy.skip,
        start.negotiated == Some(size),
        start.mismatched == 0 && start.consecutive == 0 && !start.restarted,
        start.policy.restart_after >= 1,
        0 < frames.len() <= start.policy.give_up_after,
        all_of_another_size(frames, size),
        is_good(frames.last().jpeg@, width, height),
        shot::after_all(start, arrivals(frames.drop_last())).leads_to(
            ShotEvent::Arrived(Ok(frames.last())),
            step,
        ),
    ensures
        frames.len() == start.policy.give_up_after ==> step == ShotStep::Failed(
            ShotError::WrongSize {
                want_width: size.0,
                want_height: size.1,
                saw_width: width,
                saw_height: height,
                mismatched: frames.len() as u32,
                restarted: start.policy.restart_after < start.policy.give_up_after,
            },
        ),
        frames.len() < start.policy.give_up_after ==> if frames.len()
            == start.policy.restart_after {
            step is Restart
        } else {
            step is Clock
        },
{
    let head = frames.drop_last();
    assert forall|i: int| 0 <= i < head.len() implies is_of_another_size(
        #[trigger] head[i],
        size,
    ) by {
        assert(head[i] == frames[i]);
    }
    lemma_wrong_sizes(start, size, head);
    let last = frames[frames.len() - 1];
    assert(last == frames.last());
    let (w, h) = choose|w: u32, h: u32|
        is_good(last.jpeg@, w, h) && (w != size.0 || h != size.1);
    assert(w == width && h == height);
}

proof fn lemma_wrong_sizes(start: Picker, size: (u32, u32), frames: Seq<CompressedFrame>)
    requires
        start.skipped >= start.policy.skip,
        start.negotiated == Some(size),
        start.mismatched == 0 && start.consecutive == 0 && !start.restarted,
        start.policy.restart_after >= 1,
        frames.len() < start.policy.give_up_after,
        all_of_another_size(frames, size),
    ensures
        ({
            let p = shot::after_all(start, arrivals(frames));
            let n = frames.len();
            &&& p.policy == start.policy && p.negotiated == start.negotiated
            &&& p.skipped == start.skipped
            &&& p.mismatched == n
            &&& p.restarted <==> n >= start.policy.restart_after
            &&& p.consecutive == if n >= start.policy.restart_after {
                n - start.policy.restart_after
            } else {
                n as int
            }
        }),
    decreases frames.len(),
{
    if frames.len() > 0 {
        let head = frames.drop_last();
        assert forall|i: int| 0 <= i < head.len() implies is_of_another_size(
            #[trigger] head[i],
            size,
        ) by {
            assert(head[i] == frames[i]);
        }
        lemma_wrong_sizes(start, size, head);
        assert(arrivals(frames).drop_last() =~= arrivals(head));
        assert(arrivals(frames).last() == ShotEvent::Arrived(Ok(frames.last())));
        let last = frames[frames.len() - 1];
        assert(last == frames.last());
        let (w, h) = choose|w: u32, h: u32|
            is_good(last.jpeg@, w, h) && (w != size.0 || h != size.1);
    } else {
        assert(arrivals(frames) =~= seq![]);
    }
}

/// The end comes after three times as many frames as the restart does, so that the restart has had
/// twice as long as it took to come to it; and the restart is well above what a device sends in
/// stale frames.
pub proof fn the_restart_has_had_its_time()
    ensures
        shot::GIVE_UP_AFTER == 3 * shot::RESTART_AFTER,
        shot::RESTART_AFTER > 3 * 8,
        2 * shot::RESTART_AFTER == 60,
{
}

/// The deadline ends an attempt from the moment it is reached on and not before, with the time that
/// has passed since the start and with what was thrown away. A frame in hand is judged first.
pub proof fn the_deadline_ends_an_attempt(
    p: Picker,
    now: Nanos,
    step: ShotStep,
    frame: CompressedFrame,
    judged: ShotStep,
)
    requires
        p.leads_to(ShotEvent::Tick { now }, step),
        p.leads_to(ShotEvent::Arrived(Ok(frame)), judged),
    ensures
        now < p.deadline ==> step is Again,
        now >= p.deadline ==> (step matches ShotStep::Failed(e) && (e matches ShotError::Timeout {
            waited,
            skipped,
            discarded,
            mismatched,
        } && (now >= p.started ==> waited == now - p.started) && skipped == p.skipped && discarded
            == p.discarded && mismatched == p.mismatched)),
        judged matches ShotStep::Failed(e) ==> !(e is Timeout),
{
}

/// A source that is gone or was refused its settings ends the attempt at once; one that failed
/// otherwise is asked again after a pause, and only a frame that it refused itself is counted.
pub proof fn a_failing_source_is_asked_again_unless_it_is_gone(
    p: Picker,
    e: CaptureError,
    step: ShotStep,
)
    requires
        p.leads_to(ShotEvent::Arrived(Err(e)), step),
        p.discarded < u32::MAX,
    ensures
        e is Disconnected ==> step == ShotStep::Failed(
            ShotError::Disconnected { skipped: p.skipped },
        ),
        e matches CaptureError::Config(what) ==> step == ShotStep::Failed(ShotError::Config(what)),
        e is Timeout || e is Io || e is BadFrame ==> step is Pause,
        p.after(ShotEvent::Arrived(Err(e))).discarded == p.discarded + if e is BadFrame {
            1int
        } else {
            0
        },
        p.after(ShotEvent::Arrived(Err(e))).skipped == p.skipped,
        p.after(ShotEvent::Arrived(Err(e))).mismatched == p.mismatched,
{
}

/// A restart that found the device gone ends the attempt; one that failed otherwise does not.
pub proof fn a_failed_restart_is_not_the_end(
    p: Picker,
    outcome: Result<(), CaptureError>,
    step: ShotStep,
)
    requires
        p.leads_to(ShotEvent::Restarted(outcome), step),
    ensures
        outcome is Err && outcome->Err_0 is Disconnected ==> step == ShotStep::Failed(
            ShotError::Disconnected { skipped: p.skipped },
        ),
        outcome is Ok || !(outcome->Err_0 is Disconnected) ==> step is Clock,
        p.after(ShotEvent::Restarted(outcome)) == p,
{
}

/// A signal ends an attempt at its next pass, and nothing else does there.
pub proof fn a_signal_ends_an_attempt(p: Picker, interrupted: bool, step: ShotStep)
    requires
        p.leads_to(ShotEvent::Ready { interrupted }, step),
    ensures
        interrupted ==> step == ShotStep::Failed(ShotError::Interrupted),
        !interrupted ==> step is Ask,
        p.after(ShotEvent::Ready { interrupted }) == p,
{
}

// ---- where it goes -------------------------------------------------------------------------

/// Whether two texts are the same but for the case of their letters.
pub open spec fn same_but_for_case(a: Seq<char>, b: Seq<char>) -> bool {
    &&& a.len() == b.len()
    &&& forall|i: int|
        0 <= i < a.len() ==> #[trigger] a[i] == b[i] || ('a' <= b[i] <= 'z' && a[i] as int == b[i]
            as int - 32)
}

/// Letters in lower case are themselves, and those in upper case are the same letter in lower case.
pub proof fn upper_case_is_read_as_lower(c: char)
    ensures
        'a' <= c <= 'z' ==> shot::lower(c) == c,
        'A' <= c <= 'Z' ==> shot::lower(c) as int == c as int + 32,
        !('A' <= c <= 'Z') ==> shot::lower(c) == c,
{
}

proof fn lemma_extension(p: Seq<char>, stem: Seq<char>, ext: Seq<char>)
    requires
        path::parsed(p).file_name() == Some(stem + seq!['.'] + ext),
        stem.len() > 0,
        forall|i: int| 0 <= i < ext.len() ==> ext[i] != '.',
    ensures
        shot::extension(p) == shot::lowered(ext),
{
    let name = stem + seq!['.'] + ext;
    let n = stem.len() + 1;
    assert(name.skip(n as int) =~= ext);
    assert forall|i: int| n <= i < name.len() implies name[i] != '.' by {
        assert(name[i] == ext[i - n]);
    }
    assert(name[n - 1] == '.');
    text::lemma_after_last(name, '.', n as int);
}

/// The last part of a file's name says what is written to it, in upper or lower case: `jpg` and
/// `jpeg` the device's own bytes, `png` the frame encoded again. The file is the one that was given.
pub proof fn the_extension_says_what_is_written(
    p: Seq<char>,
    stem: Seq<char>,
    ext: Seq<char>,
    now: Option<u64>,
)
    requires
        path::parsed(p).file_name() == Some(stem + seq!['.'] + ext),
        stem.len() > 0,
        forall|i: int| 0 <= i < ext.len() ==> ext[i] != '.',
        p != "-"@,
    ensures
        same_but_for_case(ext, "jpg"@) || same_but_for_case(ext, "jpeg"@) ==> shot::target_of(
            Some(p),
            now,
        ) == Ok::<TargetView, Seq<char>>(TargetView::Jpeg(p)),
        same_but_for_case(ext, "png"@) ==> shot::target_of(Some(p), now) == Ok::<
            TargetView,
            Seq<char>,
        >(TargetView::Png(p)),
        !same_but_for_case(ext, "jpg"@) && !same_but_for_case(ext, "jpeg"@) && !same_but_for_case(
            ext,
            "png"@,
        ) ==> shot::target_of(Some(p), now) is Err,
{
    lemma_extension(p, stem, ext);
    reveal_strlit("jpg");
    reveal_strlit("jpeg");
    reveal_strlit("png");
    lemma_case(ext, "jpg"@);
    lemma_case(ext, "jpeg"@);
    lemma_case(ext, "png"@);
    let low = shot::lowered(ext);
    if same_but_for_case(ext, "png"@) {
        assert(low[0] == 'p');
        assert("jpg"@[0] == 'j' && "jpeg"@.len() == 4 && low.len() == 3);
    }
}

proof fn lemma_case(a: Seq<char>, b: Seq<char>)
    requires
        forall|i: int| 0 <= i < b.len() ==> 'a' <= #[trigger] b[i] <= 'z',
    ensures
        same_but_for_case(a, b) <==> shot::lowered(a) == b,
{
    let low = shot::lowered(a);
    if same_but_for_case(a, b) {
        assert forall|i: int| 0 <= i < low.len() implies low[i] == b[i] by {
            assert(low[i] == shot::lower(a[i]));
            assert('a' <= b[i] <= 'z');
        }
        assert(low =~= b);
    }
    if low == b {
        assert forall|i: int| 0 <= i < a.len() implies #[trigger] a[i] == b[i] || ('a' <= b[i]
            <= 'z' && a[i] as int == b[i] as int - 32) by {
            assert(low[i] == shot::lower(a[i]));
            assert(low[i] == b[i]);
        }
    }
}

/// A lone dash is the standard output, and without a path there is a name with the time.
pub proof fn a_dash_is_the_standard_output(now: Option<u64>)
    ensures
        shot::target_of(Some("-"@), now) == Ok::<TargetView, Seq<char>>(TargetView::Stdout),
        shot::target_of(None, now) == Ok::<TargetView, Seq<char>>(
            TargetView::Jpeg(
                shot::name_at(
                    match now {
                        Some(secs) => secs,
                        None => 0,
                    },
                ),
            ),
        ),
{
}

/// A path without an extension is refused, and says so with the path.
pub proof fn a_name_without_an_extension_is_refused(p: Seq<char>, name: Seq<char>, now: Option<u64>)
    requires
        p != "-"@,
        path::parsed(p).file_name() == Some(name),
        forall|i: int| 1 <= i < name.len() ==> name[i] != '.',
    ensures
        shot::target_of(Some(p), now) matches Err(e) && text::mentions(e, p),
{
    reveal(text::mentions);
    reveal_strlit("jpg");
    reveal_strlit("jpeg");
    reveal_strlit("png");
    if name.len() > 0 && name[0] == '.' {
        text::lemma_after_last(name, '.', 1);
    } else {
        text::lemma_after_last(name, '.', 0);
    }
    assert(shot::extension(p).len() == 0);
    assert("jpg"@.len() == 3 && "jpeg"@.len() == 4 && "png"@.len() == 3);
    if let Err(e) = shot::target_of(Some(p), now) {
        assert(e.subrange(0, 0int + p.len()) =~= p);
    }
}

/// A shot is written next to its place, under a name that is hidden, has its own name in it and is
/// another one for another process.
pub proof fn a_shot_is_written_next_to_its_place(p: path::PathView, pid: u32, other: u32)
    requires
        p.file_name() is Some,
    ensures
        shot::temporary_path(p, pid) is Some,
        ({
            let t = shot::temporary_path(p, pid)->0;
            &&& t.parts.last()[0] == '.'
            &&& t.parts.last().subrange(1, 1 + p.parts.last().len() as int) == p.parts.last()
            &&& p.parts.len() > 1 || p.rooted ==> t.parent() == p.parent()
            &&& p.parts.len() == 1 && !p.rooted ==> t.parent() == Some(path::parsed("."@))
        }),
        pid != other ==> shot::temporary_path(p, pid) != shot::temporary_path(p, other),
{
    reveal_strlit(".");
    reveal_strlit(".tmp");
    let name = p.parts.last();
    let t = shot::temporary_path(p, pid)->0;
    let hidden = "."@ + name + "."@ + text::decimal(pid as nat) + ".tmp"@;
    assert(t.parts.last() == hidden);
    assert(hidden.subrange(1, 1 + name.len() as int) =~= name);
    assert(t.parts.drop_last() =~= (if p.parts.len() > 1 || p.rooted {
        p.parts.drop_last()
    } else {
        path::parsed("."@).parts
    }));
    if pid != other {
        let (a, b) = (text::decimal(pid as nat), text::decimal(other as nat));
        let shown = "."@ + name + "."@ + b + ".tmp"@;
        if hidden == shown {
            assert(a.len() == b.len());
            let at = name.len() as int + 2;
            assert(hidden.subrange(at, at + a.len()) =~= a);
            assert(shown.subrange(at, at + b.len()) =~= b);
            text::a_number_is_read_back_as_it_was_written(pid as nat, 10, 0, u32::MAX as nat);
            text::a_number_is_read_back_as_it_was_written(other as nat, 10, 0, u32::MAX as nat);
            assert(text::zero_padded(a, 0) == a && text::zero_padded(b, 0) == b);
        }
        assert(shot::temporary_path(p, other)->0.parts.last() == shown);
    }
}

// ---- which node is asked -------------------------------------------------------------------

/// A serial node that was given is the one that is asked, whatever discovery selects; without one it
/// is that of the selected pair.
pub proof fn a_given_node_is_asked_before_a_selected_one(
    selected: Result<discovery::nodes::PairView, discovery::ErrorView>,
    c: discovery::ConstraintsView,
)
    ensures
        c.serial matches Some(p) ==> devices::targets(selected, c) == seq![p],
        c.serial is None && selected is Ok ==> devices::targets(selected, c) == seq![
            selected->Ok_0.serial.dev,
        ],
        c.serial is None && selected is Err ==> devices::targets(selected, c).len() == 0,
{
}

/// A time limit of up to an hour is taken as it is, and a longer one is refused.
pub proof fn a_time_limit_is_at_most_an_hour(secs: u64)
    ensures
        shot::limit_of(secs) is Some <==> secs <= 3600,
        shot::limit_of(secs) is Some ==> shot::limit_of(secs)->0 == secs * 1_000_000_000,
{
}

/// The pixels of a shot are four bytes for each point of it.
pub proof fn a_shot_has_four_bytes_for_each_point(taken: shot::Shot, pixels: Seq<u8>)
    requires
        shot::decodes_to(&taken, pixels),
    ensures
        pixels.len() == 4 * (taken.width * taken.height),
{
    assert(taken.width * taken.height * 4 == 4 * (taken.width * taken.height)) by (nonlinear_arith);
}

} // verus!
