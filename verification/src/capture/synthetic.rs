//! The source that needs no hardware: it replays a list of JPEGs.
//!
//! It mimics a ring of capture buffers: each frame is written into one internal buffer that is
//! reused, and the caller is handed a copy. Its clock is the caller's: [`SyntheticSource::pace`]
//! says how long to sleep, and [`SyntheticSource::next_frame`] is called once that time is over.

use vstd::prelude::*;

use super::jpeg;
use super::{CaptureError, CompressedFrame, MAX_HEIGHT, MAX_WIDTH};
use crate::clock;
use crate::clock::Nanos;
use crate::names;
use crate::text;

verus! {

/// A failure that is due once `after` frames were delivered.
struct ScriptedFailure {
    after: usize,
    error: CaptureError,
}

/// Replays a list of JPEGs.
pub struct SyntheticSource {
    frames: Vec<Vec<u8>>,
    ring: Vec<u8>,
    interval: Nanos,
    next_due: Option<Nanos>,
    cursor: usize,
    delivered: usize,
    sequence: u32,
    failures: Vec<ScriptedFailure>,
    label: String,
}

/// What a [`SyntheticSource`] replays, and how far it has come.
#[verifier::ext_equal]
pub ghost struct SyntheticView {
    pub frames: Seq<Vec<u8>>,
    pub interval: Nanos,
    /// When the next frame is due, once one was asked for.
    pub next_due: Option<Nanos>,
    /// How many frames were read, good or bad.
    pub cursor: usize,
    /// How many frames were handed out.
    pub delivered: usize,
    pub sequence: u32,
    /// The failures still to come: after how many frames, and which.
    pub failures: Seq<(usize, CaptureError)>,
    pub label: Seq<char>,
}

/// The message for a frame that could not be used.
pub open spec fn bad_frame(cursor: usize, why: Seq<char>) -> Seq<char> {
    "synthetic frame "@ + text::decimal(cursor as nat) + ": "@ + why
}

/// The complaint about a header over the ceiling.
pub open spec fn over_ceiling(width: u32, height: u32) -> Seq<char> {
    "header claims "@ + text::decimal(width as nat) + "x"@ + text::decimal(height as nat)
        + ", over the "@ + text::decimal(MAX_WIDTH as nat) + "x"@ + text::decimal(
        MAX_HEIGHT as nat,
    ) + " ceiling"@
}

/// The complaint about a header over the ceiling, as a string.
pub fn over_ceiling_text(width: u32, height: u32) -> (s: String)
    ensures
        s@ == over_ceiling(width, height),
{
    let mut s = "header claims ".to_owned();
    text::push_decimal(&mut s, width as u128);
    s.append("x");
    text::push_decimal(&mut s, height as u128);
    s.append(", over the ");
    text::push_decimal(&mut s, MAX_WIDTH as u128);
    s.append("x");
    text::push_decimal(&mut s, MAX_HEIGHT as u128);
    s.append(" ceiling");
    s
}

/// Whether a file of this name holds a frame: its extension is `jpg`.
pub open spec fn is_frame_name(name: Seq<char>) -> bool {
    &&& name.len() > 4
    &&& name.skip(name.len() - 4) == seq!['.', 'j', 'p', 'g']
}

fn names_a_frame(name: &str) -> (r: bool)
    ensures
        r == is_frame_name(name@),
{
    let chars = text::chars_of(name);
    let n: usize = chars.len();
    let r = n > 4 && chars[n - 4] == '.' && chars[n - 3] == 'j' && chars[n - 2] == 'p' && chars[n
        - 1] == 'g';
    proof {
        if n > 4 {
            let back = name@.skip(n - 4);
            assert(back[0] == name@[n - 4]);
            assert(back[1] == name@[n - 3]);
            assert(back[2] == name@[n - 2]);
            assert(back[3] == name@[n - 1]);
            if r {
                assert(back =~= seq!['.', 'j', 'p', 'g']);
            }
        }
    }
    r
}

/// The files of a directory that hold frames, in the order of their names.
pub fn frame_files(names: Vec<String>) -> (r: Vec<String>)
    ensures
        names::sorts(
            names::texts(names@).filter(|name: Seq<char>| is_frame_name(name)),
            names::texts(r@),
        ),
{
    let mut kept: Vec<String> = Vec::new();
    let ghost which = |name: Seq<char>| is_frame_name(name);
    let ghost all = names::texts(names@);
    let mut i: usize = 0;
    proof {
        reveal(Seq::filter);
        assert(names::texts(kept@) =~= all.take(0).filter(which));
    }
    while i < names.len()
        invariant
            i <= names@.len(),
            all == names::texts(names@),
            which == |name: Seq<char>| is_frame_name(name),
            names::texts(kept@) == all.take(i as int).filter(which),
        decreases names@.len() - i,
    {
        proof {
            reveal(Seq::filter);
            assert(all.take(i + 1).drop_last() =~= all.take(i as int));
            assert(all.take(i + 1).last() == names@[i as int]@);
        }
        let ghost before = names::texts(kept@);
        if names_a_frame(names[i].as_str()) {
            kept.push(names[i].clone());
            assert(names::texts(kept@) =~= before.push(names@[i as int]@));
        }
        i = i + 1;
    }
    assert(all.take(all.len() as int) =~= all);
    names::sorted(kept)
}

/// What a source that replays a directory says of itself.
pub open spec fn directory_label(dir: Seq<char>, frames: nat) -> Seq<char> {
    "synthetic ("@ + dir + ", "@ + text::decimal(frames) + " frames)"@
}

impl SyntheticView {
    /// The first scripted failure that is due now.
    pub open spec fn is_next_failure(self, i: int) -> bool {
        &&& 0 <= i < self.failures.len()
        &&& self.failures[i].0 == self.delivered
        &&& forall|j: int| 0 <= j < i ==> (#[trigger] self.failures[j]).0 != self.delivered
    }

    /// Whether a scripted failure is due now.
    pub open spec fn failure_due(self) -> bool {
        exists|i: int| self.is_next_failure(i)
    }

    /// When the current frame is due.
    pub open spec fn due(self, now: Nanos) -> Nanos {
        match self.next_due {
            Some(due) => due,
            None => now,
        }
    }

    /// The schedule after a frame that was due at `next_due` came at `now`. The nominal rate does
    /// not drift, and a slow caller builds up no backlog.
    pub open spec fn rescheduled(self, now: Nanos) -> SyntheticView {
        let next = self.due(now) + self.interval;
        SyntheticView {
            next_due: if self.interval == 0 {
                self.next_due
            } else if next < now {
                Some((now + self.interval) as Nanos)
            } else {
                Some(next as Nanos)
            },
            ..self
        }
    }

    /// The bytes of the frame to come.
    pub open spec fn current(self) -> Seq<u8> {
        self.frames[self.cursor as int % self.frames.len() as int]@
    }

    /// One past the cursor, which starts over after its largest value.
    pub open spec fn next_cursor(self) -> usize {
        if self.cursor == usize::MAX {
            0
        } else {
            (self.cursor + 1) as usize
        }
    }

    /// One past the sequence number, which starts over after its largest value.
    pub open spec fn next_sequence(self) -> u32 {
        if self.sequence == u32::MAX {
            0
        } else {
            (self.sequence + 1) as u32
        }
    }
}

impl View for SyntheticSource {
    type V = SyntheticView;

    closed spec fn view(&self) -> SyntheticView {
        SyntheticView {
            frames: self.frames@,
            interval: self.interval,
            next_due: self.next_due,
            cursor: self.cursor,
            delivered: self.delivered,
            sequence: self.sequence,
            failures: self.failures@.map_values(|f: ScriptedFailure| (f.after, f.error)),
            label: self.label@,
        }
    }
}

impl SyntheticSource {
    /// There is always something to replay.
    pub open spec fn well_formed(&self) -> bool {
        self@.frames.len() > 0
    }

    /// A source that replays `frames` in order and over again, one every `interval`. An interval
    /// of zero means as fast as it is asked.
    pub fn new(frames: Vec<Vec<u8>>, interval: Nanos) -> (r: Result<SyntheticSource, CaptureError>)
        ensures
            match r {
                Ok(s) => {
                    &&& s.well_formed()
                    &&& s@ =~= (SyntheticView {
                        frames: frames@,
                        interval,
                        next_due: None,
                        cursor: 0,
                        delivered: 0,
                        sequence: 0,
                        failures: seq![],
                        label: "synthetic (in-memory frames)"@,
                    })
                },
                Err(e) => {
                    &&& frames@.len() == 0
                    &&& e is Config
                    &&& e->Config_0@ == "synthetic source has no frames"@
                },
            },
    {
        if frames.is_empty() {
            return Err(CaptureError::Config("synthetic source has no frames".to_owned()));
        }
        Ok(
            SyntheticSource {
                frames,
                ring: Vec::new(),
                interval,
                next_due: None,
                cursor: 0,
                delivered: 0,
                sequence: 0,
                failures: Vec::new(),
                label: "synthetic (in-memory frames)".to_owned(),
            },
        )
    }

    /// A source that replays the frames read from the files of `dir` that [`frame_files`] names.
    pub fn from_dir(dir: &str, frames: Vec<Vec<u8>>, interval: Nanos) -> (r: Result<
        SyntheticSource,
        CaptureError,
    >)
        ensures
            match r {
                Ok(s) => {
                    &&& s.well_formed()
                    &&& s@ =~= (SyntheticView {
                        frames: frames@,
                        interval,
                        next_due: None,
                        cursor: 0,
                        delivered: 0,
                        sequence: 0,
                        failures: seq![],
                        label: directory_label(dir@, frames@.len()),
                    })
                },
                Err(e) => {
                    &&& frames@.len() == 0
                    &&& e is Config
                    &&& e->Config_0@ == "synthetic source has no frames"@
                },
            },
    {
        let mut label = "synthetic (".to_owned();
        label.append(dir);
        label.append(", ");
        text::push_decimal(&mut label, frames.len() as u128);
        label.append(" frames)");
        match SyntheticSource::new(frames, interval) {
            Ok(s) => {
                let mut s = s;
                s.set_label(label);
                Ok(s)
            },
            Err(e) => Err(e),
        }
    }

    /// Scripts a failure: after `n` frames were delivered, the next call fails once.
    ///
    /// A failed call counts as no delivery, so failures that are scripted at the same point come
    /// one after the other, in the order they were scripted.
    pub fn fail_after(&mut self, n: usize, error: CaptureError)
        ensures
            final(self)@ =~= (SyntheticView {
                failures: old(self)@.failures.push((n, error)),
                ..old(self)@
            }),
    {
        self.failures.push(ScriptedFailure { after: n, error });
    }

    /// Changes the interval between two frames, and starts the schedule over.
    pub fn set_interval(&mut self, interval: Nanos)
        ensures
            final(self)@ =~= (SyntheticView { interval, next_due: None, ..old(self)@ }),
    {
        self.interval = interval;
        self.next_due = None;
    }

    /// Changes what [`SyntheticSource::describe`] says.
    pub fn set_label(&mut self, label: String)
        ensures
            final(self)@ =~= (SyntheticView { label: label@, ..old(self)@ }),
    {
        self.label = label;
    }

    /// How many frames were handed out.
    pub fn delivered(&self) -> (n: usize)
        ensures
            n == self@.delivered,
    {
        self.delivered
    }

    /// The frames that this source replays.
    pub fn source_frames(&self) -> (r: &[Vec<u8>])
        ensures
            r@ == self@.frames,
    {
        self.frames.as_slice()
    }

    /// What this source calls itself.
    pub fn describe(&self) -> (s: String)
        ensures
            s@ == self@.label,
    {
        self.label.clone()
    }

    /// How long to sleep before the next call of [`SyntheticSource::next_frame`]. A scripted
    /// failure is paced like a frame.
    pub fn pace(&mut self, now: Nanos) -> (wait: Nanos)
        ensures
            wait == (if old(self)@.interval == 0 {
                0
            } else {
                clock::since(old(self)@.due(now), now)
            }),
            final(self)@ =~= (SyntheticView {
                next_due: if old(self)@.interval == 0 {
                    old(self)@.next_due
                } else {
                    Some(old(self)@.due(now))
                },
                ..old(self)@
            }),
    {
        if self.interval == 0 {
            return 0;
        }
        let due: Nanos = match self.next_due {
            Some(due) => due,
            None => now,
        };
        self.next_due = Some(due);
        clock::elapsed(due, now)
    }

    /// Schedules the frame after the one that came at `now`.
    fn reschedule(&mut self, now: Nanos)
        requires
            old(self)@.due(now) + old(self)@.interval <= Nanos::MAX,
            now + old(self)@.interval <= Nanos::MAX,
        ensures
            final(self)@ =~= old(self)@.rescheduled(now),
            final(self).frames == old(self).frames,
            final(self).failures == old(self).failures,
    {
        if self.interval == 0 {
            return;
        }
        let due: Nanos = match self.next_due {
            Some(due) => due,
            None => now,
        };
        let next: Nanos = due + self.interval;
        self.next_due = Some(
            if next < now {
                now + self.interval
            } else {
                next
            },
        );
    }

    /// The position of the first scripted failure that is due now.
    fn next_failure(&self) -> (r: Option<usize>)
        ensures
            match r {
                Some(i) => self@.is_next_failure(i as int),
                None => !self@.failure_due(),
            },
    {
        let mut i: usize = 0;
        while i < self.failures.len()
            invariant
                i <= self.failures@.len(),
                forall|j: int| 0 <= j < i ==> (#[trigger] self@.failures[j]).0 != self@.delivered,
            decreases self.failures@.len() - i,
        {
            assert(self@.failures[i as int].0 == self.failures@[i as int].after);
            if self.failures[i].after == self.delivered {
                assert(self@.is_next_failure(i as int));
                return Some(i);
            }
            i = i + 1;
        }
        None
    }

    /// Hands out the next frame, or the next scripted failure. Its size is what its own header
    /// says, under the same ceiling as for a real device, and it is stamped one interval before
    /// `now`.
    pub fn next_frame(&mut self, now: Nanos) -> (r: Result<CompressedFrame, CaptureError>)
        requires
            old(self).well_formed(),
            old(self)@.due(now) + old(self)@.interval <= Nanos::MAX,
            now + old(self)@.interval <= Nanos::MAX,
            old(self)@.delivered < usize::MAX,
        ensures
            final(self).well_formed(),
            ({
                let was = old(self)@;
                let paced = was.rescheduled(now);
                let read = SyntheticView { cursor: was.next_cursor(), ..paced };
                if was.failure_due() {
                    exists|i: int|
                        {
                            &&& was.is_next_failure(i)
                            &&& r == Err::<CompressedFrame, CaptureError>(was.failures[i].1)
                            &&& final(self)@ =~= (SyntheticView {
                                failures: was.failures.remove(i),
                                ..paced
                            })
                        }
                } else {
                    match jpeg::header_dimensions(was.current()) {
                        Err(e) => {
                            &&& r is Err
                            &&& r->Err_0 is BadFrame
                            &&& r->Err_0->BadFrame_0@ == bad_frame(was.next_cursor(), e.words())
                            &&& final(self)@ =~= read
                        },
                        Ok((width, height)) => if super::in_range(width, height) {
                            &&& r is Ok
                            &&& r->Ok_0.jpeg@ == was.current()
                            &&& r->Ok_0.width == width
                            &&& r->Ok_0.height == height
                            &&& r->Ok_0.captured_at == clock::since(now, was.interval)
                            &&& r->Ok_0.sequence == was.sequence
                            &&& final(self)@ =~= (SyntheticView {
                                delivered: (was.delivered + 1) as usize,
                                sequence: was.next_sequence(),
                                ..read
                            })
                        } else {
                            &&& r is Err
                            &&& r->Err_0 is BadFrame
                            &&& r->Err_0->BadFrame_0@ == bad_frame(
                                was.next_cursor(),
                                over_ceiling(width, height),
                            )
                            &&& final(self)@ =~= read
                        },
                    }
                }
            }),
    {
        let ghost was = self@;
        let scripted = self.next_failure();
        self.reschedule(now);
        if let Some(i) = scripted {
            let failure = self.failures.remove(i);
            proof {
                assert(was.failures[i as int].1 == failure.error);
                assert(self@.failures =~= was.failures.remove(i as int));
            }
            return Err(failure.error);
        }
        let at: usize = self.cursor % self.frames.len();
        self.ring.clear();
        self.ring.extend_from_slice(self.frames[at].as_slice());
        self.cursor = self.cursor.wrapping_add(1);
        proof {
            assert(self.ring@ =~= was.current());
            assert(self.cursor == was.next_cursor());
            assert(self@.failures =~= was.failures);
        }
        let (width, height) = match jpeg::dimensions(self.ring.as_slice()) {
            Ok(size) => size,
            Err(e) => {
                return Err(CaptureError::BadFrame(self.complaint(e.text())));
            },
        };
        if !super::dimensions_in_range(width, height) {
            return Err(CaptureError::BadFrame(self.complaint(over_ceiling_text(width, height))));
        }
        let copy = self.ring.clone();
        assert(copy@ =~= was.current());
        let frame = CompressedFrame {
            jpeg: copy,
            width,
            height,
            captured_at: clock::elapsed(now, self.interval),
            sequence: self.sequence,
        };
        self.sequence = self.sequence.wrapping_add(1);
        self.delivered = self.delivered + 1;
        Ok(frame)
    }

    /// The message for the frame that was just read.
    fn complaint(&self, why: String) -> (s: String)
        ensures
            s@ == bad_frame(self@.cursor, why@),
    {
        let mut s = "synthetic frame ".to_owned();
        text::push_decimal(&mut s, self.cursor as u128);
        s.append(": ");
        s.append(why.as_str());
        s
    }
}

/// Frames are replayed in order and over again: behind each frame comes the one behind it in the
/// list, and behind the last one the first. The cursor starts over at its largest value, where the
/// order is broken once.
pub proof fn frames_replay_in_order_and_over_again(v: SyntheticView)
    requires
        v.frames.len() > 0,
        v.cursor < usize::MAX,
    ensures
        ({
            let at = v.cursor as int % v.frames.len() as int;
            let next = SyntheticView { cursor: v.next_cursor(), ..v };
            &&& 0 <= at < v.frames.len()
            &&& v.current() == v.frames[at]@
            &&& next.current() == v.frames[if at + 1 == v.frames.len() {
                0
            } else {
                at + 1
            }]@
        }),
{
    let len = v.frames.len() as int;
    let cursor = v.cursor as int;
    vstd::arithmetic::div_mod::lemma_mod_bound(cursor, len);
    vstd::arithmetic::div_mod::lemma_fundamental_div_mod(cursor, len);
    let at = cursor % len;
    let q = cursor / len;
    if at + 1 == len {
        assert(cursor + 1 == len * (q + 1) + 0) by (nonlinear_arith)
            requires
                cursor == len * q + at,
                at + 1 == len,
        ;
        vstd::arithmetic::div_mod::lemma_fundamental_div_mod_converse(cursor + 1, len, q + 1, 0);
    } else {
        vstd::arithmetic::div_mod::lemma_fundamental_div_mod_converse(cursor + 1, len, q, at + 1);
    }
}

/// The schedule after `n` frames that each came when it was due.
pub open spec fn on_time(start: SyntheticView, n: nat) -> SyntheticView
    decreases n,
{
    if n == 0 {
        start
    } else {
        let before = on_time(start, (n - 1) as nat);
        before.rescheduled(before.next_due->0)
    }
}

/// The rate does not drift: frames that come when they are due are due one interval after the other,
/// counted from the first.
pub proof fn the_rate_does_not_drift(start: SyntheticView, first: Nanos, n: nat)
    requires
        start.interval > 0,
        start.next_due == Some(first),
        first + n * start.interval <= Nanos::MAX,
    ensures
        on_time(start, n).next_due == Some((first + n * start.interval) as Nanos),
        on_time(start, n).interval == start.interval,
    decreases n,
{
    if n > 0 {
        assert((n - 1) * start.interval + start.interval == n * start.interval) by (nonlinear_arith);
        the_rate_does_not_drift(start, first, (n - 1) as nat);
    } else {
        assert(0 * start.interval == 0) by (nonlinear_arith);
    }
}

/// A slow caller builds up no backlog: whenever a frame comes, the next one is due one interval after
/// the time at which this one was due, or after it came where that has already passed; and nothing
/// else of the source changes.
pub proof fn a_slow_caller_builds_up_no_backlog(v: SyntheticView, now: Nanos)
    requires
        v.interval > 0,
        v.due(now) + v.interval <= Nanos::MAX,
        now + v.interval <= Nanos::MAX,
    ensures
        ({
            let next = v.rescheduled(now).next_due;
            &&& next is Some && next->0 >= now
            &&& v.next_due matches Some(due) ==> if due + v.interval >= now {
                next->0 == due + v.interval
            } else {
                next->0 == now + v.interval
            }
            &&& v.next_due is None ==> next->0 == now + v.interval
            &&& v.rescheduled(now) == (SyntheticView { next_due: next, ..v })
        }),
        (SyntheticView { interval: 0, ..v }).rescheduled(now) == (SyntheticView { interval: 0, ..v }),
{
}

/// A failure is due exactly if one is scripted at the number of frames that were delivered, and of
/// several the one that was scripted first.
pub proof fn failures_come_in_the_order_they_were_scripted(v: SyntheticView, i: int, j: int)
    requires
        0 <= i < v.failures.len(),
        v.failures[i].0 == v.delivered,
    ensures
        v.failure_due(),
        v.is_next_failure(j) ==> 0 <= j <= i && v.failures[j].0 == v.delivered,
    decreases i,
{
    if v.is_next_failure(j) && j > i {
        assert(v.failures[i].0 != v.delivered);
    }
    if !v.is_next_failure(i) {
        let k = choose|k: int| 0 <= k < i && (#[trigger] v.failures[k]).0 == v.delivered;
        failures_come_in_the_order_they_were_scripted(v, k, j);
    }
}

/// A file is a frame exactly if its name is something and `.jpg` behind it.
pub proof fn a_frame_file_ends_in_jpg(stem: Seq<char>, name: Seq<char>)
    ensures
        stem.len() > 0 ==> is_frame_name(stem + seq!['.', 'j', 'p', 'g']),
        is_frame_name(name) ==> name == name.take(name.len() - 4) + seq!['.', 'j', 'p', 'g']
            && name.len() > 4,
{
    let whole = stem + seq!['.', 'j', 'p', 'g'];
    assert(whole.skip(whole.len() - 4) =~= seq!['.', 'j', 'p', 'g']);
    if is_frame_name(name) {
        assert(name =~= name.take(name.len() - 4) + name.skip(name.len() - 4));
    }
}

} // verus!
