//! The interfaces of PCM devices, and stand-ins that need no hardware.
//!
//! Sources and sinks exchange interleaved periods of samples.

use std::collections::VecDeque;
use std::sync::atomic::AtomicBool;
use std::sync::Arc;

use vstd::prelude::*;

use super::AudioError;

verus! {

/// One period of samples in.
pub trait PcmSource: Send {
    /// Fills `out`, which is one period long, with the next samples. Waits for the device.
    fn read_period(&mut self, out: &mut [i16]) -> (r: Result<(), AudioError>)
        ensures
            final(out)@.len() == old(out)@.len(),
    ;

    /// What this is, in words.
    fn describe(&self) -> String;
}

/// One period of samples out.
pub trait PcmSink: Send {
    /// Writes one period. Waits for the device.
    fn write_period(&mut self, samples: &[i16]) -> Result<(), AudioError>;

    /// What this is, in words.
    fn describe(&self) -> String;
}

/// Opens a new source after the last one failed.
pub trait PcmSourceOpener: Send {
    /// Whether a source can be asked for.
    open spec fn ready(&self) -> bool {
        true
    }

    fn open(&mut self) -> (r: Result<Box<dyn PcmSource>, AudioError>)
        requires
            old(self).ready(),
    ;

    /// What would be opened, in words.
    fn describe(&self) -> String;

    /// Takes the flag that stops the audio threads, for every device that is opened after it. A
    /// wait inside a device call can only be cut short from there.
    fn on_stop_flag(&mut self, stop: Arc<AtomicBool>)
        default_ensures
            &*final(self) == &*old(self),
    {
    }
}

/// Opens a new sink after the last one failed.
pub trait PcmSinkOpener: Send {
    /// Whether a sink can be asked for.
    open spec fn ready(&self) -> bool {
        true
    }

    fn open(&mut self) -> (r: Result<Box<dyn PcmSink>, AudioError>)
        requires
            old(self).ready(),
    ;

    /// What would be opened, in words.
    fn describe(&self) -> String;

    /// Takes the flag that stops the audio threads.
    fn on_stop_flag(&mut self, stop: Arc<AtomicBool>)
        default_ensures
            &*final(self) == &*old(self),
    {
    }
}

/// A source that plays a script: each entry is the outcome of one read, and behind the last one
/// the same ending repeats for ever, as a dead device does.
pub struct ScriptedSource {
    script: VecDeque<Result<i16, AudioError>>,
    end: Result<i16, AudioError>,
    reads: u64,
    name: String,
}

/// The script of a source.
#[verifier::ext_equal]
pub ghost struct ScriptView {
    /// The outcomes to come.
    pub script: Seq<Result<i16, AudioError>>,
    /// The outcome behind them.
    pub end: Result<i16, AudioError>,
    /// How many reads there were.
    pub reads: u64,
    pub name: Seq<char>,
}

impl ScriptView {
    /// The outcome of the next read.
    pub open spec fn upcoming(self) -> Result<i16, AudioError> {
        if self.script.len() > 0 {
            self.script[0]
        } else {
            self.end
        }
    }

    /// The script after a read.
    pub open spec fn advanced(self) -> ScriptView {
        ScriptView {
            script: if self.script.len() > 0 {
                self.script.drop_first()
            } else {
                self.script
            },
            reads: super::next(self.reads),
            ..self
        }
    }
}

impl View for ScriptedSource {
    type V = ScriptView;

    closed spec fn view(&self) -> ScriptView {
        ScriptView {
            script: self.script@,
            end: self.end,
            reads: self.reads,
            name: self.name@,
        }
    }
}

impl ScriptedSource {
    /// A source whose reads succeed. Each fills the whole period with the next of `values`, and
    /// with zero once they are used up.
    pub fn new(name: &str, values: Vec<i16>) -> (s: ScriptedSource)
        ensures
            s@.script =~= values@.map_values(|v: i16| Ok::<i16, AudioError>(v)),
            s@.end == Ok::<i16, AudioError>(0),
            s@.reads == 0,
            s@.name == name@,
    {
        let mut script: VecDeque<Result<i16, AudioError>> = VecDeque::new();
        let mut i: usize = 0;
        while i < values.len()
            invariant
                i <= values@.len(),
                script@ == values@.take(i as int).map_values(|v: i16| Ok::<i16, AudioError>(v)),
            decreases values@.len() - i,
        {
            script.push_back(Ok(values[i]));
            i = i + 1;
            assert(script@ =~= values@.take(i as int).map_values(
                |v: i16| Ok::<i16, AudioError>(v),
            ));
        }
        assert(values@.take(values@.len() as int) =~= values@);
        ScriptedSource { script, end: Ok(0), reads: 0, name: name.to_owned() }
    }

    /// The same source with another ending.
    pub fn ending_with(self, end: Result<i16, AudioError>) -> (s: ScriptedSource)
        ensures
            s@ =~= (ScriptView { end, ..self@ }),
    {
        ScriptedSource { script: self.script, end, reads: self.reads, name: self.name }
    }

    /// How many reads there were.
    pub fn reads(&self) -> (n: u64)
        ensures
            n == self@.reads,
    {
        self.reads
    }
}

impl PcmSource for ScriptedSource {
    fn read_period(&mut self, out: &mut [i16]) -> (r: Result<(), AudioError>)
        ensures
            final(self)@ =~= old(self)@.advanced(),
            match old(self)@.upcoming() {
                Ok(v) => r is Ok && final(out)@ == Seq::new(old(out)@.len(), |i: int| v),
                Err(e) => r == Err::<(), AudioError>(e) && final(out)@ == old(out)@,
            },
    {
        self.reads = self.reads.wrapping_add(1);
        let next = match self.script.pop_front() {
            Some(next) => next,
            None => match &self.end {
                Ok(v) => Ok(*v),
                Err(e) => Err(e.copy()),
            },
        };
        match next {
            Ok(value) => {
                let len: usize = out.len();
                let mut i: usize = 0;
                while i < len
                    invariant
                        i <= len,
                        out@.len() == len,
                        len == old(out)@.len(),
                        forall|k: int| 0 <= k < i ==> out@[k] == value,
                    decreases len - i,
                {
                    out[i] = value;
                    i = i + 1;
                }
                assert(out@ =~= Seq::new(old(out)@.len(), |i: int| value));
                Ok(())
            },
            Err(e) => Err(e),
        }
    }

    fn describe(&self) -> (s: String)
        ensures
            s@ == "scripted source "@ + self@.name,
    {
        "scripted source ".to_owned().concat(self.name.as_str())
    }
}

/// A sink that keeps every period it was given.
pub struct RecordingSink {
    written: Vec<Vec<i16>>,
    fail_after: Option<usize>,
}

/// What a sink has recorded.
#[verifier::ext_equal]
pub ghost struct RecordingView {
    pub written: Seq<Seq<i16>>,
    /// After how many periods it vanishes, if it does.
    pub fail_after: Option<usize>,
}

impl View for RecordingSink {
    type V = RecordingView;

    closed spec fn view(&self) -> RecordingView {
        RecordingView {
            written: self.written@.map_values(|p: Vec<i16>| p@),
            fail_after: self.fail_after,
        }
    }
}

/// The first sample of a period, which marks it.
pub open spec fn marker(period: Seq<i16>) -> i16 {
    if period.len() > 0 {
        period[0]
    } else {
        0
    }
}

impl RecordingSink {
    /// A sink that takes everything.
    pub fn new() -> (s: RecordingSink)
        ensures
            s@ =~= (RecordingView { written: seq![], fail_after: None }),
    {
        RecordingSink { written: Vec::new(), fail_after: None }
    }

    /// The same sink, which vanishes after `n` periods.
    pub fn failing_after(self, n: usize) -> (s: RecordingSink)
        ensures
            s@ =~= (RecordingView { fail_after: Some(n), ..self@ }),
    {
        RecordingSink { written: self.written, fail_after: Some(n) }
    }

    /// The periods that were written, in order.
    pub fn written(&self) -> (r: &Vec<Vec<i16>>)
        ensures
            r@.map_values(|p: Vec<i16>| p@) == self@.written,
    {
        &self.written
    }

    /// The first sample of every period that was written.
    pub fn markers(&self) -> (r: Vec<i16>)
        ensures
            r@ =~= self@.written.map_values(|p: Seq<i16>| marker(p)),
    {
        let mut r: Vec<i16> = Vec::new();
        let mut i: usize = 0;
        while i < self.written.len()
            invariant
                i <= self.written@.len(),
                r@.len() == i,
                forall|k: int| 0 <= k < i ==> r@[k] == marker(#[trigger] self.written@[k]@),
            decreases self.written@.len() - i,
        {
            let period = &self.written[i];
            r.push(
                if period.len() > 0 {
                    period[0]
                } else {
                    0
                },
            );
            i = i + 1;
        }
        proof {
            let want = self@.written.map_values(|p: Seq<i16>| marker(p));
            assert forall|k: int| 0 <= k < r@.len() implies r@[k] == want[k] by {
                assert(r@[k] == marker(self.written@[k]@));
            }
        }
        r
    }
}

impl Default for RecordingSink {
    fn default() -> (s: RecordingSink)
        ensures
            s@ =~= (RecordingView { written: seq![], fail_after: None }),
    {
        RecordingSink::new()
    }
}

impl PcmSink for RecordingSink {
    fn write_period(&mut self, samples: &[i16]) -> (r: Result<(), AudioError>)
        ensures
            if old(self)@.fail_after matches Some(n) && old(self)@.written.len() >= n {
                &&& final(self)@ == old(self)@
                &&& r is Err
                &&& r->Err_0 is Gone
                &&& r->Err_0->Gone_device@ == "recording sink"@
                &&& r->Err_0->Gone_why@ == "the fake sink was configured to vanish here"@
            } else {
                &&& r is Ok
                &&& final(self)@ =~= (RecordingView {
                    written: old(self)@.written.push(samples@),
                    ..old(self)@
                })
            },
    {
        if let Some(n) = self.fail_after {
            if self.written.len() >= n {
                return Err(
                    AudioError::Gone {
                        device: "recording sink".to_owned(),
                        why: "the fake sink was configured to vanish here".to_owned(),
                    },
                );
            }
        }
        let mut copy: Vec<i16> = Vec::new();
        copy.extend_from_slice(samples);
        assert(copy@ =~= samples@);
        let ghost was = self@.written;
        self.written.push(copy);
        assert(self@.written =~= was.push(samples@));
        Ok(())
    }

    fn describe(&self) -> (s: String)
        ensures
            s@ == "recording sink"@,
    {
        "recording sink".to_owned()
    }
}

/// Opens what a closure makes, which is told how often it was asked before. A card that is not
/// there fails on every attempt and not on one, so a list of prepared devices would not do.
pub struct FnSourceOpener<F: FnMut(u64) -> Result<Box<dyn PcmSource>, AudioError> + Send> {
    name: String,
    opens: u64,
    make: F,
}

impl<F: FnMut(u64) -> Result<Box<dyn PcmSource>, AudioError> + Send> FnSourceOpener<F> {
    /// How often it was asked.
    pub closed spec fn count(&self) -> u64 {
        self.opens
    }

    /// The closure.
    pub closed spec fn maker(&self) -> F {
        self.make
    }

    /// What it is called.
    pub closed spec fn called(&self) -> Seq<char> {
        self.name@
    }

    /// An opener that calls `make` with the number of openings before, from 0 on.
    pub fn new(name: &str, make: F) -> (r: FnSourceOpener<F>)
        requires
            forall|n: u64| #[trigger] make.requires((n,)),
        ensures
            r.ready(),
            r.count() == 0,
            r.maker() == make,
            r.called() == name@,
    {
        FnSourceOpener { name: name.to_owned(), opens: 0, make }
    }

    /// How often it was asked.
    pub fn opens(&self) -> (n: u64)
        ensures
            n == self.count(),
    {
        self.opens
    }
}

impl<F: FnMut(u64) -> Result<Box<dyn PcmSource>, AudioError> + Send> PcmSourceOpener for FnSourceOpener<F> {
    open spec fn ready(&self) -> bool {
        forall|n: u64| #[trigger] self.maker().requires((n,))
    }

    fn open(&mut self) -> (r: Result<Box<dyn PcmSource>, AudioError>)
        ensures
            final(self).count() == super::next(old(self).count()),
            final(self).called() == old(self).called(),
            old(self).maker().ensures((old(self).count(),), r),
    {
        let n: u64 = self.opens;
        self.opens = n.wrapping_add(1);
        assert(old(self).maker().requires((n,)));
        (self.make)(n)
    }

    fn describe(&self) -> (s: String)
        ensures
            s@ == "scripted source opener "@ + self.called(),
    {
        "scripted source opener ".to_owned().concat(self.name.as_str())
    }
}

/// Opens what a closure makes, which is told how often it was asked before.
pub struct FnSinkOpener<F: FnMut(u64) -> Result<Box<dyn PcmSink>, AudioError> + Send> {
    name: String,
    opens: u64,
    make: F,
}

impl<F: FnMut(u64) -> Result<Box<dyn PcmSink>, AudioError> + Send> FnSinkOpener<F> {
    /// How often it was asked.
    pub closed spec fn count(&self) -> u64 {
        self.opens
    }

    /// The closure.
    pub closed spec fn maker(&self) -> F {
        self.make
    }

    /// What it is called.
    pub closed spec fn called(&self) -> Seq<char> {
        self.name@
    }

    /// An opener that calls `make` with the number of openings before, from 0 on.
    pub fn new(name: &str, make: F) -> (r: FnSinkOpener<F>)
        requires
            forall|n: u64| #[trigger] make.requires((n,)),
        ensures
            r.ready(),
            r.count() == 0,
            r.maker() == make,
            r.called() == name@,
    {
        FnSinkOpener { name: name.to_owned(), opens: 0, make }
    }

    /// How often it was asked.
    pub fn opens(&self) -> (n: u64)
        ensures
            n == self.count(),
    {
        self.opens
    }
}

impl<F: FnMut(u64) -> Result<Box<dyn PcmSink>, AudioError> + Send> PcmSinkOpener for FnSinkOpener<F> {
    open spec fn ready(&self) -> bool {
        forall|n: u64| #[trigger] self.maker().requires((n,))
    }

    fn open(&mut self) -> (r: Result<Box<dyn PcmSink>, AudioError>)
        ensures
            final(self).count() == super::next(old(self).count()),
            final(self).called() == old(self).called(),
            old(self).maker().ensures((old(self).count(),), r),
    {
        let n: u64 = self.opens;
        self.opens = n.wrapping_add(1);
        assert(old(self).maker().requires((n,)));
        (self.make)(n)
    }

    fn describe(&self) -> (s: String)
        ensures
            s@ == "scripted sink opener "@ + self.called(),
    {
        "scripted sink opener ".to_owned().concat(self.name.as_str())
    }
}

} // verus!
