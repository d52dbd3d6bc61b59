//! Delivery of compiled keyboard scripts.
//!
//! A script is compiled whole before the port is opened. Its reports are sent one after another,
//! and the first failure ends it: to send the rest again after a reconnect could repeat a command.
//! Whatever the end, all keys are released.
//!
//! Text depends on whether CapsLock is on at the target. So a text is compiled twice, and which of
//! the two is sent is decided after the device was asked and before the first report.

use vstd::prelude::*;

use crate::clock::{self, Nanos, MILLISECOND};
use crate::text;

verus! {

/// The longest sleep that a signal cannot cut short.
pub const SLICE: Nanos = 10_000_000;

/// What to do when the target says that CapsLock is on.
#[derive(Clone, Copy, Debug, PartialEq, Eq, Structural)]
pub enum CapsLockPolicy {
    /// Send nothing.
    Refuse,
    /// Send as if it were off.
    Ignore,
    /// Invert shift on letters.
    Compensate,
}

/// One state of the keyboard: the modifiers that are held, and up to six keys.
#[derive(Clone, Copy, Debug)]
pub struct KeyboardReport {
    pub modifiers: u8,
    pub keys: [u8; 6],
}

/// A report and what it was made from, so that a failure can name it.
#[derive(Debug)]
pub struct Outgoing {
    pub label: String,
    pub report: KeyboardReport,
}

/// One step of a script.
#[derive(Debug)]
pub enum Step {
    Send(Outgoing),
    Wait(Nanos),
}

/// A compiled script.
#[derive(Debug)]
pub struct Script {
    pub steps: Vec<Step>,
}

/// One step of a script.
#[verifier::ext_equal]
pub ghost enum StepView {
    Send { label: Seq<char>, modifiers: u8, keys: Seq<u8> },
    Wait(Nanos),
}

impl View for Step {
    type V = StepView;

    open spec fn view(&self) -> StepView {
        match self {
            Step::Send(o) => StepView::Send {
                label: o.label@,
                modifiers: o.report.modifiers,
                keys: o.report.keys@,
            },
            Step::Wait(t) => StepView::Wait(*t),
        }
    }
}

impl View for Script {
    type V = Seq<StepView>;

    open spec fn view(&self) -> Seq<StepView> {
        Seq::new(self.steps@.len(), |i: int| self.steps@[i]@)
    }
}

/// How many of the steps are reports.
pub open spec fn reports_in(steps: Seq<StepView>) -> nat
    decreases steps.len(),
{
    if steps.len() == 0 {
        0
    } else {
        reports_in(steps.drop_last()) + if steps.last() is Send {
            1nat
        } else {
            0
        }
    }
}

proof fn lemma_reports(steps: Seq<StepView>, n: int)
    requires
        0 <= n <= steps.len(),
    ensures
        reports_in(steps.take(n)) <= n,
        n < steps.len() ==> reports_in(steps.take(n + 1)) == reports_in(steps.take(n))
            + if steps[n] is Send {
            1nat
        } else {
            0
        },
{
    lemma_reports_bound(steps.take(n));
    if n < steps.len() {
        assert(steps.take(n + 1).drop_last() =~= steps.take(n));
    }
}

proof fn lemma_reports_bound(steps: Seq<StepView>)
    ensures
        reports_in(steps) <= steps.len(),
    decreases steps.len(),
{
    if steps.len() > 0 {
        lemma_reports_bound(steps.drop_last());
    }
}

impl Step {
    /// Whether two steps are the same.
    pub fn same(&self, other: &Step) -> (r: bool)
        ensures
            r == (self@ == other@),
    {
        match (self, other) {
            (Step::Send(a), Step::Send(b)) => text::same(a.label.as_str(), b.label.as_str())
                && a.report.same(&b.report),
            (Step::Wait(a), Step::Wait(b)) => *a == *b,
            _ => false,
        }
    }
}

impl KeyboardReport {
    /// Whether two reports are the same.
    pub fn same(&self, other: &KeyboardReport) -> (r: bool)
        ensures
            r == (self.modifiers == other.modifiers && self.keys@ == other.keys@),
    {
        if self.modifiers != other.modifiers {
            return false;
        }
        let mut i: usize = 0;
        while i < 6
            invariant
                i <= 6,
                self.keys@.len() == 6,
                other.keys@.len() == 6,
                forall|k: int| 0 <= k < i ==> self.keys@[k] == other.keys@[k],
            decreases 6 - i,
        {
            if self.keys[i] != other.keys[i] {
                return false;
            }
            i = i + 1;
        }
        assert(self.keys@ =~= other.keys@);
        true
    }
}

impl Script {
    /// How many reports there are to send.
    pub fn report_count(&self) -> (n: usize)
        ensures
            n == reports_in(self@),
    {
        let mut n: usize = 0;
        let mut i: usize = 0;
        assert(self@.take(0) =~= seq![]);
        while i < self.steps.len()
            invariant
                i <= self.steps@.len(),
                n == reports_in(self@.take(i as int)),
                n <= i,
            decreases self.steps@.len() - i,
        {
            proof {
                assert(self@.take(i + 1).drop_last() =~= self@.take(i as int));
                assert(self@.take(i + 1).last() == self.steps@[i as int]@);
            }
            if let Step::Send(_) = &self.steps[i] {
                n = n + 1;
            }
            i = i + 1;
        }
        assert(self@.take(self@.len() as int) =~= self@);
        n
    }

    /// Whether two scripts are the same.
    pub fn same(&self, other: &Script) -> (r: bool)
        ensures
            r == (self@ == other@),
    {
        if self.steps.len() != other.steps.len() {
            assert(self@.len() != other@.len());
            return false;
        }
        let mut i: usize = 0;
        while i < self.steps.len()
            invariant
                i <= self.steps@.len(),
                self.steps@.len() == other.steps@.len(),
                forall|k: int| 0 <= k < i ==> self@[k] == other@[k],
            decreases self.steps@.len() - i,
        {
            if !self.steps[i].same(&other.steps[i]) {
                assert(self@[i as int] != other@[i as int]);
                return false;
            }
            i = i + 1;
        }
        assert(self@ =~= other@);
        true
    }
}

// ---- CapsLock ------------------------------------------------------------------------------

/// What is said when CapsLock is on and nothing is sent.
pub const CAPS_LOCK_REFUSAL: &'static str = "the target reports CapsLock ON; letters would be typed inverted. Turn it off with \"nanokvm key capslock\", or pass --caps-lock ignore|compensate. No keyboard report was sent.";

/// What is said when shift is inverted.
pub const COMPENSATING: &'static str = "compensating for CapsLock: shift inverted on letters";

/// A script, and the same source compiled for a target with CapsLock on. A chord names a key and
/// no character, so it has no second compilation.
#[derive(Debug)]
pub struct Compiled {
    pub script: Script,
    pub compensated: Option<Script>,
}

impl Compiled {
    /// Whether CapsLock changes what is typed: the two compilations differ.
    pub open spec fn depends_on_caps_lock(&self) -> bool {
        self.compensated matches Some(alt) && alt@ != self.script@
    }

    /// Whether CapsLock changes what is typed.
    pub fn affected_by_caps_lock(&self) -> (r: bool)
        ensures
            r == self.depends_on_caps_lock(),
    {
        match &self.compensated {
            Some(alt) => !alt.same(&self.script),
            None => false,
        }
    }
}

/// A compilation to send, or the refusal.
pub open spec fn encoding(compiled: &Compiled, caps_lock_on: bool, policy: CapsLockPolicy) -> Result<
    Script,
    Seq<char>,
> {
    if !caps_lock_on || !compiled.depends_on_caps_lock() {
        Ok(compiled.script)
    } else {
        match policy {
            CapsLockPolicy::Refuse => Err(CAPS_LOCK_REFUSAL@),
            CapsLockPolicy::Ignore => Ok(compiled.script),
            CapsLockPolicy::Compensate => Ok(compiled.compensated->0),
        }
    }
}

/// Which of the two compilations is sent. The policy is asked only where the target says that
/// CapsLock is on and that makes a difference.
pub fn choose_encoding(
    compiled: &Compiled,
    caps_lock_on: bool,
    policy: CapsLockPolicy,
) -> (r: Result<&Script, String>)
    ensures
        match r {
            Ok(s) => encoding(compiled, caps_lock_on, policy) == Ok::<Script, Seq<char>>(*s),
            Err(e) => encoding(compiled, caps_lock_on, policy) == Err::<Script, Seq<char>>(e@),
        },
{
    if !caps_lock_on || !compiled.affected_by_caps_lock() {
        return Ok(&compiled.script);
    }
    match policy {
        CapsLockPolicy::Refuse => Err(CAPS_LOCK_REFUSAL.to_owned()),
        CapsLockPolicy::Ignore => Ok(&compiled.script),
        CapsLockPolicy::Compensate => Ok(compiled.compensated.as_ref().unwrap()),
    }
}

/// Whether shift is inverted, which is worth a note.
pub fn compensates(compiled: &Compiled, caps_lock_on: bool, policy: CapsLockPolicy) -> (r: bool)
    ensures
        r == (caps_lock_on && compiled.depends_on_caps_lock() && policy
            == CapsLockPolicy::Compensate),
{
    caps_lock_on && compiled.affected_by_caps_lock() && policy == CapsLockPolicy::Compensate
}

/// CapsLock that is off, or that changes nothing, is no reason for anything: the script goes out as
/// it is, whatever the policy.
pub proof fn caps_lock_matters_only_where_it_changes_something(
    compiled: &Compiled,
    caps_lock_on: bool,
    policy: CapsLockPolicy,
)
    requires
        !caps_lock_on || !compiled.depends_on_caps_lock(),
    ensures
        encoding(compiled, caps_lock_on, policy) == Ok::<Script, Seq<char>>(compiled.script),
{
}

/// With CapsLock on at the target, a text whose two compilations differ anywhere is not sent as if
/// it were off: it is refused, or the second compilation is sent, or the policy says to ignore it.
/// A text for which they are the same step for step goes out as it is.
pub proof fn letters_are_never_typed_inverted_unasked(
    compiled: &Compiled,
    alt: Script,
    policy: CapsLockPolicy,
    i: int,
)
    requires
        compiled.compensated == Some(alt),
    ensures
        compiled.script@.len() != alt@.len() || (0 <= i < alt@.len() && compiled.script@[i]
            != alt@[i]) ==> match policy {
            CapsLockPolicy::Refuse => encoding(compiled, true, policy) is Err,
            CapsLockPolicy::Ignore => encoding(compiled, true, policy) == Ok::<Script, Seq<char>>(
                compiled.script,
            ),
            CapsLockPolicy::Compensate => encoding(compiled, true, policy) == Ok::<
                Script,
                Seq<char>,
            >(alt),
        },
        compiled.script@.len() == alt@.len() && (forall|k: int|
            0 <= k < alt@.len() ==> compiled.script@[k] == #[trigger] alt@[k]) ==> encoding(
            compiled,
            true,
            policy,
        ) == Ok::<Script, Seq<char>>(compiled.script),
        encoding(compiled, false, policy) == Ok::<Script, Seq<char>>(compiled.script),
{
    if compiled.script@.len() == alt@.len() && (forall|k: int|
        0 <= k < alt@.len() ==> compiled.script@[k] == #[trigger] alt@[k]) {
        assert(compiled.script@ =~= alt@);
    }
}

/// The refusal says that CapsLock is on and that nothing was sent; without a second compilation
/// there is nothing to refuse.
pub proof fn a_refusal_says_that_nothing_was_sent(
    compiled: &Compiled,
    caps_lock_on: bool,
    policy: CapsLockPolicy,
)
    ensures
        encoding(compiled, caps_lock_on, policy) matches Err(e) ==> caps_lock_on && policy
            == CapsLockPolicy::Refuse && compiled.compensated is Some && text::mentions(
            e,
            "CapsLock ON"@,
        ) && text::mentions(e, "No keyboard report was sent."@),
{
    if let Err(e) = encoding(compiled, caps_lock_on, policy) {
        reveal(text::mentions);
        reveal_strlit(
            "the target reports CapsLock ON; letters would be typed inverted. Turn it off with \"nanokvm key capslock\", or pass --caps-lock ignore|compensate. No keyboard report was sent.",
        );
        reveal_strlit("CapsLock ON");
        reveal_strlit("No keyboard report was sent.");
        assert(e.subrange(19, 19int + 11) =~= "CapsLock ON"@);
        let n = e.len() - 28;
        assert(e.subrange(n, n + 28) =~= "No keyboard report was sent."@);
    }
}

// ---- before the first report ---------------------------------------------------------------

/// What was asked for, beside the script.
#[derive(Clone, Copy, Debug)]
pub struct Delivery {
    /// Between two reports.
    pub delay: Nanos,
    /// Print and send nothing.
    pub dry_run: bool,
    pub caps_lock: CapsLockPolicy,
}

/// What is said when nothing is connected to the device.
pub const NO_TARGET: &'static str = "the device reports no target on its HID side: the keystrokes would go nowhere. Refusing to run. No keyboard report was sent.";

/// Decides what to send, once the device has said whether a target is connected and whether
/// CapsLock is on. A refusal comes before any report.
pub fn gate(
    compiled: &Compiled,
    target_connected: bool,
    caps_lock_on: bool,
    policy: CapsLockPolicy,
) -> (r: Result<&Script, String>)
    ensures
        match r {
            Ok(s) => target_connected && encoding(compiled, caps_lock_on, policy) == Ok::<
                Script,
                Seq<char>,
            >(*s),
            Err(e) => if !target_connected {
                e@ == NO_TARGET@
            } else {
                encoding(compiled, caps_lock_on, policy) == Err::<Script, Seq<char>>(e@)
            },
        },
{
    if !target_connected {
        return Err(NO_TARGET.to_owned());
    }
    choose_encoding(compiled, caps_lock_on, policy)
}

// ---- the reports ---------------------------------------------------------------------------

/// How far a script has got.
#[derive(Clone, Copy, Debug, PartialEq, Eq, Structural)]
pub struct Progress {
    /// Steps that are done.
    pub at: usize,
    /// Reports that were acknowledged.
    pub sent: usize,
    /// Whether the pause in front of the next report is over.
    pub paced: bool,
}

/// What happened.
#[derive(Debug)]
pub enum KeysEvent {
    /// The next thing to do is asked for.
    Ready { interrupted: bool },
    /// A pause is over, or a signal cut it short.
    Paused { interrupted: bool },
    /// The report was acknowledged, or why not.
    Acked(Result<(), String>),
}

/// What to do next.
#[derive(Debug)]
pub enum KeysStep {
    /// Pause for this long.
    Pause(Nanos),
    /// Send the report of this step and wait for its acknowledgement.
    Send(usize),
    /// Ask for the next thing.
    Again,
    /// All reports were delivered.
    Delivered(usize),
    /// The sequence is incomplete.
    Failed { context: String, cause: Option<String> },
}

/// How far the script has got, as text.
pub open spec fn so_far(sent: nat, total: nat) -> Seq<char> {
    text::decimal(sent) + " of "@ + text::decimal(total) + " reports"@
}

fn push_so_far(s: &mut String, sent: usize, total: usize)
    ensures
        final(s)@ == old(s)@ + so_far(sent as nat, total as nat),
{
    text::push_decimal(s, sent as u128);
    s.append(" of ");
    text::push_decimal(s, total as u128);
    s.append(" reports");
    assert(s@ =~= old(s)@ + so_far(sent as nat, total as nat));
}

impl Progress {
    /// Whether the numbers belong to the script: as many reports were sent as there are among the
    /// steps that are done.
    pub open spec fn fits(self, steps: Seq<StepView>) -> bool {
        &&& self.at <= steps.len()
        &&& self.sent == reports_in(steps.take(self.at as int))
    }

    /// Whether an event can come now.
    pub open spec fn expects(self, steps: Seq<StepView>, event: KeysEvent) -> bool {
        match event {
            KeysEvent::Ready { .. } => true,
            KeysEvent::Paused { .. } => self.at < steps.len(),
            KeysEvent::Acked(_) => self.at < steps.len() && steps[self.at as int] is Send,
        }
    }

    /// How far the script has got after an event.
    pub open spec fn after(self, steps: Seq<StepView>, event: KeysEvent) -> Progress {
        match event {
            KeysEvent::Ready { .. } => self,
            KeysEvent::Paused { interrupted } => if interrupted {
                self
            } else if steps[self.at as int] is Wait {
                Progress { at: (self.at + 1) as usize, paced: false, ..self }
            } else {
                Progress { paced: true, ..self }
            },
            KeysEvent::Acked(outcome) => if outcome is Ok {
                Progress {
                    at: (self.at + 1) as usize,
                    sent: (self.sent + 1) as usize,
                    paced: false,
                }
            } else {
                self
            },
        }
    }

    /// Whether `step` is what follows from `event`.
    pub open spec fn leads_to(
        self,
        steps: Seq<StepView>,
        delay: Nanos,
        event: KeysEvent,
        step: KeysStep,
    ) -> bool {
        let done = so_far(self.sent as nat, reports_in(steps));
        match event {
            KeysEvent::Ready { interrupted } => if self.at == steps.len() {
                step == KeysStep::Delivered(self.sent)
            } else if self.paced {
                step == KeysStep::Send(self.at)
            } else if interrupted {
                step matches KeysStep::Failed { context, cause } && context@
                    == "interrupted after "@ + done && cause is None
            } else {
                match steps[self.at as int] {
                    StepView::Wait(t) => step == KeysStep::Pause(t),
                    StepView::Send { .. } => if self.sent > 0 {
                        step == KeysStep::Pause(delay)
                    } else {
                        step == KeysStep::Send(self.at)
                    },
                }
            },
            KeysEvent::Paused { interrupted } => if interrupted {
                step matches KeysStep::Failed { context, cause } && context@ == "after "@ + done
                    && cause is Some && cause->0@ == "interrupted"@
            } else {
                step is Again
            },
            KeysEvent::Acked(outcome) => match outcome {
                Ok(()) => step is Again,
                Err(e) => step matches KeysStep::Failed { context, cause } && context@
                    == steps[self.at as int]->label + " was not acknowledged; "@ + done
                    + " had been delivered, so the sequence is incomplete"@ && cause == Some(e),
            },
        }
    }

    /// The beginning.
    pub fn new() -> (p: Progress)
        ensures
            p == (Progress { at: 0, sent: 0, paced: false }),
    {
        Progress { at: 0, sent: 0, paced: false }
    }

    /// Delivers a script, one event at a time. Every failure says how far it got.
    pub fn run(&mut self, script: &Script, delay: Nanos, event: KeysEvent) -> (step: KeysStep)
        requires
            old(self).fits(script@),
            old(self).expects(script@, event),
        ensures
            *final(self) == old(self).after(script@, event),
            old(self).leads_to(script@, delay, event, step),
            final(self).fits(script@),
    {
        proof {
            assert(script@.len() == script.steps@.len());
            lemma_reports(script@, self.at as int);
            if self.at < script@.len() {
                assert(script@[self.at as int] == script.steps@[self.at as int]@);
            }
        }
        let total = script.report_count();
        let count: usize = script.steps.len();
        match event {
            KeysEvent::Ready { interrupted } => {
                if self.at == count {
                    return KeysStep::Delivered(self.sent);
                }
                if self.paced {
                    return KeysStep::Send(self.at);
                }
                if interrupted {
                    let mut context = "interrupted after ".to_owned();
                    push_so_far(&mut context, self.sent, total);
                    return KeysStep::Failed { context, cause: None };
                }
                match &script.steps[self.at] {
                    Step::Wait(t) => KeysStep::Pause(*t),
                    Step::Send(_) => if self.sent > 0 {
                        KeysStep::Pause(delay)
                    } else {
                        KeysStep::Send(self.at)
                    },
                }
            },
            KeysEvent::Paused { interrupted } => {
                if interrupted {
                    let mut context = "after ".to_owned();
                    push_so_far(&mut context, self.sent, total);
                    return KeysStep::Failed { context, cause: Some("interrupted".to_owned()) };
                }
                match &script.steps[self.at] {
                    Step::Wait(_) => {
                        self.at = self.at + 1;
                        self.paced = false;
                    },
                    Step::Send(_) => {
                        self.paced = true;
                    },
                }
                KeysStep::Again
            },
            KeysEvent::Acked(outcome) => match outcome {
                Ok(()) => {
                    self.at = self.at + 1;
                    self.sent = self.sent + 1;
                    self.paced = false;
                    KeysStep::Again
                },
                Err(e) => {
                    let mut context = match &script.steps[self.at] {
                        Step::Send(o) => o.label.clone(),
                        Step::Wait(_) => String::new(),
                    };
                    context.append(" was not acknowledged; ");
                    push_so_far(&mut context, self.sent, total);
                    context.append(" had been delivered, so the sequence is incomplete");
                    KeysStep::Failed { context, cause: Some(e) }
                },
            },
        }
    }
}

/// A script that is through has sent every one of its reports.
pub proof fn a_delivered_script_was_sent_whole(
    p: Progress,
    steps: Seq<StepView>,
    delay: Nanos,
    event: KeysEvent,
    n: usize,
)
    requires
        p.fits(steps),
        p.leads_to(steps, delay, event, KeysStep::Delivered(n)),
    ensures
        n == reports_in(steps),
{
    assert(steps.take(steps.len() as int) =~= steps);
}

/// How far a script has got after a run of events.
pub open spec fn after_events(p: Progress, steps: Seq<StepView>, events: Seq<KeysEvent>) -> Progress
    decreases events.len(),
{
    if events.len() == 0 {
        p
    } else {
        after_events(p, steps, events.drop_last()).after(steps, events.last())
    }
}

/// Whether each event of a run could come when it came.
pub open spec fn all_expected(p: Progress, steps: Seq<StepView>, events: Seq<KeysEvent>) -> bool {
    forall|i: int|
        0 <= i < events.len() ==> after_events(p, steps, events.take(i)).expects(
            steps,
            #[trigger] events[i],
        )
}

proof fn lemma_only_forward(p: Progress, steps: Seq<StepView>, events: Seq<KeysEvent>)
    requires
        p.at <= steps.len() <= usize::MAX,
        all_expected(p, steps, events),
    ensures
        p.at <= after_events(p, steps, events).at <= steps.len(),
    decreases events.len(),
{
    if events.len() > 0 {
        let before = events.drop_last();
        assert forall|i: int| 0 <= i < before.len() implies after_events(
            p,
            steps,
            before.take(i),
        ).expects(steps, #[trigger] before[i]) by {
            assert(before.take(i) =~= events.take(i));
            assert(before[i] == events[i]);
        }
        lemma_only_forward(p, steps, before);
        assert(events.take(events.len() - 1) =~= before);
        assert(after_events(p, steps, before).expects(steps, events[events.len() - 1]));
    }
}

/// A report that was acknowledged is never sent again, whatever happens later: what is sent comes
/// behind it in the script.
pub proof fn no_report_is_sent_twice(
    p: Progress,
    steps: Seq<StepView>,
    delay: Nanos,
    later: Seq<KeysEvent>,
    event: KeysEvent,
    again: usize,
)
    requires
        steps.len() <= usize::MAX,
        p.expects(steps, KeysEvent::Acked(Ok(()))),
        ({
            let acked = p.after(steps, KeysEvent::Acked(Ok(())));
            &&& all_expected(acked, steps, later)
            &&& after_events(acked, steps, later).leads_to(
                steps,
                delay,
                event,
                KeysStep::Send(again),
            )
        }),
    ensures
        p.at < again < steps.len(),
{
    let acked = p.after(steps, KeysEvent::Acked(Ok(())));
    lemma_only_forward(acked, steps, later);
}

/// The next slice of a pause.
#[derive(Clone, Copy, Debug, PartialEq, Eq, Structural)]
pub enum PauseStep {
    Interrupted,
    Over,
    Sleep(Nanos),
}

/// The next slice of a pause up to `deadline`.
pub open spec fn pause_step(deadline: Nanos, now: Nanos, interrupted: bool) -> PauseStep {
    if interrupted {
        PauseStep::Interrupted
    } else if now > deadline {
        PauseStep::Over
    } else {
        PauseStep::Sleep(clock::least((deadline - now) as Nanos, SLICE))
    }
}

/// A pause is over only once its deadline has passed, and no slice of it goes beyond the deadline or
/// is longer than a hundredth of a second; a signal ends it at the next look.
pub proof fn a_pause_lasts_to_its_deadline(deadline: Nanos, now: Nanos, interrupted: bool)
    ensures
        interrupted <==> pause_step(deadline, now, interrupted) == PauseStep::Interrupted,
        pause_step(deadline, now, interrupted) == PauseStep::Over <==> !interrupted && now
            > deadline,
        pause_step(deadline, now, interrupted) matches PauseStep::Sleep(d) ==> now + d <= deadline
            && d <= 10_000_000 && (now + d == deadline || d == 10_000_000),
{
}

/// A pause up to `deadline`, in slices, so that a signal is noticed soon.
pub fn pause(deadline: Nanos, now: Nanos, interrupted: bool) -> (r: PauseStep)
    ensures
        r == if interrupted {
            PauseStep::Interrupted
        } else if now > deadline {
            PauseStep::Over
        } else {
            PauseStep::Sleep(clock::least((deadline - now) as Nanos, SLICE))
        },
        r == pause_step(deadline, now, interrupted),
{
    if interrupted {
        PauseStep::Interrupted
    } else if now > deadline {
        PauseStep::Over
    } else {
        PauseStep::Sleep(clock::shorter(deadline - now, SLICE))
    }
}

/// What is said after the last report.
pub fn delivered_line(sent: usize) -> (s: String)
    ensures
        s@ == delivered(sent as nat),
{
    let mut s = "delivered ".to_owned();
    text::push_decimal(&mut s, sent as u128);
    s.append(" reports; the effect is on the target's screen, not in this ack");
    s
}

/// What is said of the release of all keys. One that was not sent leaves the target in doubt.
pub fn release_line(failure: &Option<String>) -> (s: String)
    ensures
        s@ == released(*failure),
{
    match failure {
        None => "[release-all] keyboard report sent".to_owned(),
        Some(e) => "[release-all] keyboard report UNSENT: ".to_owned().concat(e.as_str()),
    }
}

// ---- from the first question to the last release ------------------------------------------

/// What the device says of the target.
#[derive(Clone, Copy, Debug, PartialEq, Eq, Structural)]
pub struct TargetInfo {
    pub target_connected: bool,
    pub caps_lock: bool,
}

/// Why a delivery ended early.
#[derive(Debug)]
pub struct Failure {
    pub context: String,
    pub cause: Option<String>,
}

/// Where a delivery stands. From `Sending` on, a key may be held at the target.
#[derive(Debug)]
pub enum Stage {
    Ready,
    Opening,
    Syncing,
    Asking,
    Sending,
    Releasing(Option<Failure>),
    Over,
}

/// What happened.
#[derive(Debug)]
pub enum DeliveryEvent {
    Begin,
    /// The port was opened, or why not.
    Opened(Result<(), String>),
    /// What an earlier run left half sent is off the wire, or why not.
    Synced(Result<(), String>),
    /// What the device says, or why it does not.
    Answered(Result<TargetInfo, String>),
    /// The script ran to its end, with so many reports, or failed.
    Ran(Result<usize, Failure>),
    /// All keys were released, or why not.
    Released(Option<String>),
}

/// What to do next.
#[derive(Debug)]
pub enum DeliveryStep {
    /// Print the script and open nothing.
    Print,
    /// Catch the signals, then open the port.
    Open,
    /// Finish a frame that an earlier run left half sent.
    Sync,
    /// Ask the device for its state.
    Ask,
    /// Send a script: the second compilation, or the first.
    Send { compensated: bool },
    /// Say this, if anything, and release all keys.
    Release(Option<String>),
    /// Note what became of the release, if there was one. The delivery is over.
    End { note: Option<String>, failure: Option<Failure> },
}

/// What is said when the port cannot be opened.
pub open spec fn not_opened(serial: Seq<char>) -> Seq<char> {
    "opening the CH9329 serial link on "@ + serial
        + ". Check the path and that you can write to it (it is usually owned by the 'uucp' or 'dialout' group)."@
}

/// What is said when the frames cannot be put in step.
pub open spec fn not_synced(serial: Seq<char>) -> Seq<char> {
    "resynchronising the CH9329 frame parser on "@ + serial
}

/// What is said when the device does not answer.
pub open spec fn not_answered(serial: Seq<char>) -> Seq<char> {
    "GET_INFO on "@ + serial + " did not answer"@
}

/// What is said of the release of all keys.
pub open spec fn released(failure: Option<String>) -> Seq<char> {
    match failure {
        None => "[release-all] keyboard report sent"@,
        Some(e) => "[release-all] keyboard report UNSENT: "@ + e@,
    }
}

/// What is said after the last report.
pub open spec fn delivered(sent: nat) -> Seq<char> {
    "delivered "@ + text::decimal(sent)
        + " reports; the effect is on the target's screen, not in this ack"@
}

/// Whether a delivery ends here, before anything was sent, with this context and cause.
pub open spec fn refuses(
    step: DeliveryStep,
    next: Stage,
    context: Seq<char>,
    cause: Option<String>,
) -> bool {
    &&& next is Over
    &&& step matches DeliveryStep::End { note, failure } && note is None && failure is Some
        && failure->0.context@ == context && failure->0.cause == cause
}

impl Stage {
    /// Whether an event can come now.
    pub open spec fn expects(self, event: DeliveryEvent) -> bool {
        match event {
            DeliveryEvent::Begin => self is Ready,
            DeliveryEvent::Opened(_) => self is Opening,
            DeliveryEvent::Synced(_) => self is Syncing,
            DeliveryEvent::Answered(_) => self is Asking,
            DeliveryEvent::Ran(_) => self is Sending,
            DeliveryEvent::Released(_) => self is Releasing,
        }
    }

    /// Whether `step` and the stage `next` are what follows from `event`.
    pub open spec fn leads_to(
        self,
        compiled: &Compiled,
        how: Delivery,
        serial: Seq<char>,
        event: DeliveryEvent,
        step: DeliveryStep,
        next: Stage,
    ) -> bool {
        match event {
            DeliveryEvent::Begin => if how.dry_run {
                step is Print && next is Over
            } else {
                step is Open && next is Opening
            },
            DeliveryEvent::Opened(r) => match r {
                Ok(()) => step is Sync && next is Syncing,
                Err(e) => refuses(step, next, not_opened(serial), Some(e)),
            },
            DeliveryEvent::Synced(r) => match r {
                Ok(()) => step is Ask && next is Asking,
                Err(e) => refuses(step, next, not_synced(serial), Some(e)),
            },
            DeliveryEvent::Answered(r) => match r {
                Err(e) => refuses(step, next, not_answered(serial), Some(e)),
                Ok(info) => if !info.target_connected {
                    refuses(step, next, NO_TARGET@, None)
                } else {
                    match encoding(compiled, info.caps_lock, how.caps_lock) {
                        Err(e) => refuses(step, next, e, None),
                        Ok(script) => {
                            &&& next is Sending
                            &&& step matches DeliveryStep::Send { compensated } && script == if
                                compensated {
                                compiled.compensated->0
                            } else {
                                compiled.script
                            } && (compensated ==> compiled.compensated is Some)
                        },
                    }
                },
            },
            DeliveryEvent::Ran(r) => match r {
                Ok(sent) => {
                    &&& next == Stage::Releasing(None)
                    &&& step matches DeliveryStep::Release(say) && say is Some && say->0@
                        == delivered(sent as nat)
                },
                Err(failure) => {
                    &&& next == Stage::Releasing(Some(failure))
                    &&& step == DeliveryStep::Release(None)
                },
            },
            DeliveryEvent::Released(e) => {
                &&& next is Over
                &&& step matches DeliveryStep::End { note, failure } && note is Some && note->0@
                    == released(e) && failure == self->Releasing_0
            },
        }
    }

    /// One step of a delivery: open, ask, send, release, in that order. Whatever can refuse comes
    /// before the first report; what comes after it ends in a release of all keys.
    pub fn deliver(
        &mut self,
        compiled: &Compiled,
        how: &Delivery,
        serial: &str,
        event: DeliveryEvent,
    ) -> (step: DeliveryStep)
        requires
            old(self).expects(event),
        ensures
            old(self).leads_to(compiled, *how, serial@, event, step, *final(self)),
    {
        match event {
            DeliveryEvent::Begin => {
                if how.dry_run {
                    *self = Stage::Over;
                    DeliveryStep::Print
                } else {
                    *self = Stage::Opening;
                    DeliveryStep::Open
                }
            },
            DeliveryEvent::Opened(r) => match r {
                Ok(()) => {
                    *self = Stage::Syncing;
                    DeliveryStep::Sync
                },
                Err(e) => {
                    let mut context = "opening the CH9329 serial link on ".to_owned();
                    context.append(serial);
                    context.append(
                        ". Check the path and that you can write to it (it is usually owned by the 'uucp' or 'dialout' group).",
                    );
                    *self = Stage::Over;
                    refuse(context, Some(e))
                },
            },
            DeliveryEvent::Synced(r) => match r {
                Ok(()) => {
                    *self = Stage::Asking;
                    DeliveryStep::Ask
                },
                Err(e) => {
                    let mut context = "resynchronising the CH9329 frame parser on ".to_owned();
                    context.append(serial);
                    *self = Stage::Over;
                    refuse(context, Some(e))
                },
            },
            DeliveryEvent::Answered(r) => match r {
                Ok(info) => match gate(
                    compiled,
                    info.target_connected,
                    info.caps_lock,
                    how.caps_lock,
                ) {
                    Ok(_) => {
                        *self = Stage::Sending;
                        DeliveryStep::Send {
                            compensated: compensates(compiled, info.caps_lock, how.caps_lock),
                        }
                    },
                    Err(e) => {
                        *self = Stage::Over;
                        refuse(e, None)
                    },
                },
                Err(e) => {
                    let mut context = "GET_INFO on ".to_owned();
                    context.append(serial);
                    context.append(" did not answer");
                    *self = Stage::Over;
                    refuse(context, Some(e))
                },
            },
            DeliveryEvent::Ran(r) => match r {
                Ok(sent) => {
                    *self = Stage::Releasing(None);
                    DeliveryStep::Release(Some(delivered_line(sent)))
                },
                Err(failure) => {
                    *self = Stage::Releasing(Some(failure));
                    DeliveryStep::Release(None)
                },
            },
            DeliveryEvent::Released(e) => {
                let mut stage = Stage::Over;
                std::mem::swap(&mut stage, self);
                let note = Some(release_line(&e));
                match stage {
                    Stage::Releasing(failure) => DeliveryStep::End { note, failure },
                    _ => DeliveryStep::End { note, failure: None },
                }
            },
        }
    }
}

fn refuse(context: String, cause: Option<String>) -> (step: DeliveryStep)
    ensures
        refuses(step, Stage::Over, context@, cause),
{
    DeliveryStep::End { note: None, failure: Some(Failure { context, cause }) }
}

/// A dry run opens nothing, so it can send nothing: it is over with its first step.
pub proof fn a_dry_run_opens_nothing(
    compiled: &Compiled,
    how: Delivery,
    serial: Seq<char>,
    step: DeliveryStep,
    next: Stage,
)
    requires
        how.dry_run,
        Stage::Ready.leads_to(compiled, how, serial, DeliveryEvent::Begin, step, next),
    ensures
        step is Print,
        next is Over,
        forall|event: DeliveryEvent| !next.expects(event),
{
}

/// Reports are sent only to a device that has answered, with a target behind it, and under a policy
/// that allows it.
pub proof fn nothing_is_sent_before_the_target_is_known(
    stage: Stage,
    compiled: &Compiled,
    how: Delivery,
    serial: Seq<char>,
    event: DeliveryEvent,
    step: DeliveryStep,
    next: Stage,
)
    requires
        stage.expects(event),
        stage.leads_to(compiled, how, serial, event, step, next),
        step is Send || next is Sending,
    ensures
        event matches DeliveryEvent::Answered(Ok(info)) && info.target_connected && encoding(
            compiled,
            info.caps_lock,
            how.caps_lock,
        ) is Ok,
{
}

/// Once reports may have been sent, the only way on is a release of all keys, and a delivery ends
/// from there only after it: with the failure of the run, if it failed, and with word of the
/// release.
pub proof fn whatever_was_sent_is_released(
    stage: Stage,
    compiled: &Compiled,
    how: Delivery,
    serial: Seq<char>,
    event: DeliveryEvent,
    step: DeliveryStep,
    next: Stage,
)
    requires
        stage.expects(event),
        stage.leads_to(compiled, how, serial, event, step, next),
    ensures
        stage is Sending ==> step is Release && next is Releasing,
        stage is Releasing ==> step is End && step->note is Some && step->failure
            == stage->Releasing_0 && next is Over,
        step is Release ==> stage is Sending,
{
}

/// Where the text to type comes from.
#[derive(Debug)]
pub enum TextSource {
    Given(String),
    /// All of the standard input, as it is.
    Stdin,
}

/// Where the text to type comes from: a lone dash stands for the standard input.
pub fn text_to_type(text: String) -> (r: TextSource)
    ensures
        if text@ == "-"@ {
            r is Stdin
        } else {
            r == TextSource::Given(text)
        },
{
    if text::same(text.as_str(), "-") {
        TextSource::Stdin
    } else {
        TextSource::Given(text)
    }
}

// ---- the commands --------------------------------------------------------------------------

/// What `key` is given.
#[derive(Debug)]
pub struct KeyArgs {
    /// Chords to send, in order, each pressed and then fully released.
    pub chords: Vec<String>,
    /// Milliseconds between reports.
    pub delay_ms: u64,
    /// Print the reports, open and send nothing.
    pub dry_run: bool,
}

/// What `type` is given.
#[derive(Debug)]
pub struct TypeArgs {
    /// Text to type; `-` stands for the standard input.
    pub text: String,
    /// The layout of the target's keyboard.
    pub layout: Option<String>,
    /// Milliseconds between reports.
    pub delay_ms: u64,
    /// Print the reports, open and send nothing.
    pub dry_run: bool,
    pub caps_lock: CapsLockPolicy,
}

/// What `macro` is given.
#[derive(Debug)]
pub struct MacroArgs {
    /// The file to run.
    pub file: String,
    /// The layout of the target's keyboard. Without one the file decides.
    pub layout: Option<String>,
    /// Milliseconds between reports.
    pub delay_ms: u64,
    /// Print the reports, open and send nothing.
    pub dry_run: bool,
    pub caps_lock: CapsLockPolicy,
}

/// What is delivered, and how.
#[derive(Debug)]
pub struct Plan {
    pub compiled: Compiled,
    pub how: Delivery,
}

/// A number of milliseconds as a length of time.
pub open spec fn millis(ms: u64) -> Nanos {
    (ms * MILLISECOND) as Nanos
}

/// What `key` delivers, given what its chords compile to. A chord names a key and no character:
/// CapsLock has nothing to decide.
pub open spec fn key_plan(args: KeyArgs, script: Result<Script, String>) -> Result<Plan, String> {
    match script {
        Ok(script) => Ok(
            Plan {
                compiled: Compiled { script, compensated: None },
                how: Delivery {
                    delay: millis(args.delay_ms),
                    dry_run: args.dry_run,
                    caps_lock: CapsLockPolicy::Ignore,
                },
            },
        ),
        Err(e) => Err(e),
    }
}

/// What a text delivers, given what it compiles to for CapsLock off and for CapsLock on.
pub open spec fn text_plan(
    how: Delivery,
    plain: Result<Script, String>,
    compensated: Result<Script, String>,
) -> Result<Plan, String> {
    match (plain, compensated) {
        (Err(e), _) => Err(e),
        (Ok(_), Err(e)) => Err(e),
        (Ok(script), Ok(alt)) => Ok(
            Plan { compiled: Compiled { script, compensated: Some(alt) }, how },
        ),
    }
}

/// Takes what the chords compile to. Whatever does not compile is refused before anything is
/// printed or opened.
pub fn run_key(args: &KeyArgs, script: Result<Script, String>) -> (r: Result<Plan, String>)
    ensures
        r == key_plan(*args, script),
{
    match script {
        Ok(script) => Ok(
            Plan {
                compiled: Compiled { script, compensated: None },
                how: Delivery {
                    delay: args.delay_ms as Nanos * MILLISECOND,
                    dry_run: args.dry_run,
                    caps_lock: CapsLockPolicy::Ignore,
                },
            },
        ),
        Err(e) => Err(e),
    }
}

/// Takes what the text compiles to, for CapsLock off and for CapsLock on.
pub fn run_type(
    args: &TypeArgs,
    plain: Result<Script, String>,
    compensated: Result<Script, String>,
) -> (r: Result<Plan, String>)
    ensures
        r == text_plan(
            Delivery {
                delay: millis(args.delay_ms),
                dry_run: args.dry_run,
                caps_lock: args.caps_lock,
            },
            plain,
            compensated,
        ),
{
    let delay: Nanos = args.delay_ms as Nanos * MILLISECOND;
    both(
        Delivery { delay, dry_run: args.dry_run, caps_lock: args.caps_lock },
        plain,
        compensated,
    )
}

/// Takes what the file compiles to, for CapsLock off and for CapsLock on.
pub fn run_macro(
    args: &MacroArgs,
    plain: Result<Script, String>,
    compensated: Result<Script, String>,
) -> (r: Result<Plan, String>)
    ensures
        r == text_plan(
            Delivery {
                delay: millis(args.delay_ms),
                dry_run: args.dry_run,
                caps_lock: args.caps_lock,
            },
            plain,
            compensated,
        ),
{
    let delay: Nanos = args.delay_ms as Nanos * MILLISECOND;
    both(
        Delivery { delay, dry_run: args.dry_run, caps_lock: args.caps_lock },
        plain,
        compensated,
    )
}

fn both(
    how: Delivery,
    plain: Result<Script, String>,
    compensated: Result<Script, String>,
) -> (r: Result<Plan, String>)
    ensures
        r == text_plan(how, plain, compensated),
{
    match (plain, compensated) {
        (Err(e), _) => Err(e),
        (Ok(_), Err(e)) => Err(e),
        (Ok(script), Ok(alt)) => Ok(
            Plan { compiled: Compiled { script, compensated: Some(alt) }, how },
        ),
    }
}

/// A dry run of `key` prints what the chords compile to and is over, whatever the port and
/// whatever the delay: nothing is opened and no report is sent. Chords that do not compile are an
/// error, with nothing to print.
pub proof fn a_dry_run_of_key_rests_on_its_chords_alone(
    args: KeyArgs,
    script: Result<Script, String>,
    serial: Seq<char>,
    step: DeliveryStep,
    next: Stage,
)
    requires
        args.dry_run,
        key_plan(args, script) matches Ok(plan) ==> Stage::Ready.leads_to(
            &plan.compiled,
            plan.how,
            serial,
            DeliveryEvent::Begin,
            step,
            next,
        ),
    ensures
        match script {
            Err(e) => key_plan(args, script) == Err::<Plan, String>(e),
            Ok(s) => {
                &&& key_plan(args, script) matches Ok(plan) && plan.compiled.script == s
                &&& step == DeliveryStep::Print
                &&& next == Stage::Over
                &&& forall|event: DeliveryEvent| !next.expects(event)
            },
        },
{
}

/// What `key` sends does not depend on CapsLock at the target.
pub proof fn caps_lock_never_changes_a_chord(
    args: KeyArgs,
    script: Script,
    caps_lock_on: bool,
)
    ensures
        key_plan(args, Ok(script)) matches Ok(plan) && encoding(
            &plan.compiled,
            caps_lock_on,
            plan.how.caps_lock,
        ) == Ok::<Script, Seq<char>>(script),
{
}

} // verus!
