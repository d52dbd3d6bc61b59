//! Stand-ins for a tree and for a probe.

use vstd::prelude::*;

use super::probe::{NodeProbe, ProbeFailure};
use super::sysfs::Sysfs;
use super::topology;
use crate::errno;
use crate::path::NodePath;

verus! {

/// One attribute that is answered from here: its directory, its name, and its text or `None` for
/// an attribute that is gone.
#[derive(Debug)]
struct Override {
    dir: NodePath,
    name: String,
    value: Option<String>,
}

/// A tree that answers from an inner one except where an attribute was replaced or removed.
pub struct OverrideSysfs<S: Sysfs> {
    inner: S,
    attrs: Vec<Override>,
}

/// What the list of replaced attributes says of one of them: the last entry counts.
spec fn overridden(
    attrs: Seq<Override>,
    dir: crate::path::PathView,
    name: Seq<char>,
) -> Option<Option<Seq<char>>>
    decreases attrs.len(),
{
    if attrs.len() == 0 {
        None
    } else if attrs.last().dir@ == dir && attrs.last().name@ == name {
        Some(topology::text_of(attrs.last().value))
    } else {
        overridden(attrs.drop_last(), dir, name)
    }
}

impl<S: Sysfs> OverrideSysfs<S> {
    /// The inner tree.
    pub closed spec fn base(&self) -> S {
        self.inner
    }

    /// What was replaced (`Some(Some(text))`) or removed (`Some(None)`).
    pub closed spec fn changed(&self, dir: crate::path::PathView, name: Seq<char>) -> Option<
        Option<Seq<char>>,
    > {
        overridden(self.attrs@, dir, name)
    }

    /// The inner tree with nothing changed.
    pub fn new(inner: S) -> (r: Self)
        ensures
            r.base() == inner,
            forall|dir: crate::path::PathView, name: Seq<char>| #[trigger]
                r.changed(dir, name) is None,
    {
        OverrideSysfs { inner, attrs: Vec::new() }
    }

    /// With one more entry.
    fn with(self, dir: &str, name: &str, value: Option<String>) -> (r: Self)
        ensures
            r.base() == self.base(),
            forall|d: crate::path::PathView, n: Seq<char>| #[trigger]
                r.changed(d, n) == if d == crate::path::parsed(dir@) && n == name@ {
                    Some(topology::text_of(value))
                } else {
                    self.changed(d, n)
                },
    {
        let OverrideSysfs { inner, attrs } = self;
        let mut attrs = attrs;
        let ghost before = attrs@;
        attrs.push(Override { dir: NodePath::new(dir), name: name.to_owned(), value });
        assert(attrs@.drop_last() =~= before);
        OverrideSysfs { inner, attrs }
    }

    /// Replaces one attribute of the device directory `dir`.
    pub fn set(self, dir: &str, name: &str, value: &str) -> (r: Self)
        ensures
            r.base() == self.base(),
            forall|d: crate::path::PathView, n: Seq<char>| #[trigger]
                r.changed(d, n) == if d == crate::path::parsed(dir@) && n == name@ {
                    Some(Some(value@))
                } else {
                    self.changed(d, n)
                },
    {
        self.with(dir, name, Some(value.to_owned()))
    }

    /// Removes one attribute.
    pub fn remove(self, dir: &str, name: &str) -> (r: Self)
        ensures
            r.base() == self.base(),
            forall|d: crate::path::PathView, n: Seq<char>| #[trigger]
                r.changed(d, n) == if d == crate::path::parsed(dir@) && n == name@ {
                    Some(None)
                } else {
                    self.changed(d, n)
                },
    {
        self.with(dir, name, None)
    }

    /// What was said of one attribute, if anything was.
    fn lookup(&self, dir: &NodePath, name: &str) -> (r: Option<&Override>)
        ensures
            match r {
                Some(o) => self.changed(dir@, name@) == Some(topology::text_of(o.value)),
                None => self.changed(dir@, name@) is None,
            },
    {
        let mut i: usize = self.attrs.len();
        assert(self.attrs@.take(i as int) =~= self.attrs@);
        while i > 0
            invariant
                i <= self.attrs@.len(),
                overridden(self.attrs@.take(i as int), dir@, name@) == self.changed(dir@, name@),
            decreases i,
        {
            i = i - 1;
            assert(self.attrs@.take(i + 1).drop_last() =~= self.attrs@.take(i as int));
            let o = &self.attrs[i];
            if o.dir.same(dir) && crate::text::same(o.name.as_str(), name) {
                return Some(o);
            }
        }
        None
    }
}

impl<S: Sysfs> Sysfs for OverrideSysfs<S> {
    open spec fn attr(&self, dir: crate::path::PathView, name: Seq<char>) -> Option<Seq<char>> {
        match self.changed(dir, name) {
            Some(value) => value,
            None => self.base().attr(dir, name),
        }
    }

    open spec fn link(&self, path: crate::path::PathView) -> Option<crate::path::Spelled> {
        self.base().link(path)
    }

    open spec fn entries(&self, dir: crate::path::PathView) -> Seq<crate::path::Spelled> {
        self.base().entries(dir)
    }

    /// An attribute that was removed does not exist either, and one that was put in does.
    open spec fn present(&self, path: crate::path::PathView) -> bool {
        match (path.parent(), path.file_name()) {
            (Some(dir), Some(name)) => match self.changed(dir, name) {
                Some(value) => value is Some,
                None => self.base().present(path),
            },
            _ => self.base().present(path),
        }
    }

    open spec fn may_read(&self) -> bool {
        self.base().may_read()
    }

    open spec fn may_list(&self, dir: crate::path::PathView) -> bool {
        self.base().may_list(dir)
    }

    fn read_attr(&self, dir: &NodePath, name: &str) -> (r: Option<String>) {
        if let Some(o) = self.lookup(dir, name) {
            return match &o.value {
                Some(text) => Some(text.clone()),
                None => None,
            };
        }
        self.inner.read_attr(dir, name)
    }

    fn read_link(&self, path: &NodePath) -> (r: Option<NodePath>) {
        self.inner.read_link(path)
    }

    fn list_dir(&self, dir: &NodePath) -> (r: Vec<NodePath>) {
        self.inner.list_dir(dir)
    }

    fn exists_at(&self, path: &NodePath) -> (r: bool) {
        if let Some(name) = path.file_name() {
            if let Some(dir) = path.parent() {
                if let Some(o) = self.lookup(&dir, name.as_str()) {
                    return o.value.is_some();
                }
            }
        }
        self.inner.exists_at(path)
    }
}

/// What [`MapProbe`] says of a node that it has no answer for.
pub open spec fn no_answer(dev: Seq<char>) -> Seq<char> {
    "MapProbe has no answer for "@ + dev
}

/// A probe that answers from a table and records every node it was asked about.
pub struct MapProbe {
    answers: Vec<(NodePath, Result<bool, i32>)>,
    default: Option<bool>,
    asked: Vec<NodePath>,
    log: Ghost<Seq<(crate::path::PathView, Result<bool, super::probe::FailureView>)>>,
}

/// The last answer in the table for a node.
spec fn answer_in(
    answers: Seq<(NodePath, Result<bool, i32>)>,
    dev: crate::path::PathView,
) -> Option<Result<bool, i32>>
    decreases answers.len(),
{
    if answers.len() == 0 {
        None
    } else if answers.last().0@ == dev {
        Some(answers.last().1)
    } else {
        answer_in(answers.drop_last(), dev)
    }
}

impl MapProbe {
    /// The answer given for a node: whether it captures, or an error number.
    pub closed spec fn answer(&self, dev: crate::path::PathView) -> Option<Result<bool, i32>> {
        match answer_in(self.answers@, dev) {
            Some(a) => Some(a),
            None => match self.default {
                Some(b) => Some(Ok(b)),
                None => None,
            },
        }
    }

    /// Whether a node was named in the table.
    pub closed spec fn names(&self, dev: crate::path::PathView) -> bool {
        answer_in(self.answers@, dev) is Some
    }

    /// Whether the record of questions agrees with the log.
    pub closed spec fn well_formed(&self) -> bool {
        crate::path::views(self.asked@) == self.log@.map_values(
            |e: (crate::path::PathView, Result<bool, super::probe::FailureView>)| e.0,
        )
    }

    /// A probe without answers.
    pub fn new() -> (p: MapProbe)
        ensures
            p.well_formed(),
            p.log() == Seq::<
                (crate::path::PathView, Result<bool, super::probe::FailureView>),
            >::empty(),
            forall|d: crate::path::PathView| #[trigger] p.answer(d) is None && !p.names(d),
    {
        let p = MapProbe {
            answers: Vec::new(),
            default: None,
            asked: Vec::new(),
            log: Ghost(Seq::empty()),
        };
        assert(crate::path::views(p.asked@) =~= p.log@.map_values(
            |e: (crate::path::PathView, Result<bool, super::probe::FailureView>)| e.0,
        ));
        p
    }

    fn with(self, dev: &str, answer: Result<bool, i32>) -> (p: MapProbe)
        requires
            self.well_formed(),
        ensures
            p.well_formed(),
            p.log() == self.log(),
            forall|d: crate::path::PathView| #[trigger]
                p.answer(d) == if d == crate::path::parsed(dev@) {
                    Some(answer)
                } else {
                    self.answer(d)
                },
            forall|d: crate::path::PathView| #[trigger]
                p.names(d) == (d == crate::path::parsed(dev@) || self.names(d)),
    {
        let MapProbe { answers, default, asked, log } = self;
        let mut answers = answers;
        let ghost before = answers@;
        answers.push((NodePath::new(dev), answer));
        assert(answers@.drop_last() =~= before);
        MapProbe { answers, default, asked, log }
    }

    /// Answers for the node `dev`.
    pub fn capture(self, dev: &str, is_capture: bool) -> (p: MapProbe)
        requires
            self.well_formed(),
        ensures
            p.well_formed(),
            p.log() == self.log(),
            forall|d: crate::path::PathView| #[trigger]
                p.answer(d) == if d == crate::path::parsed(dev@) {
                    Some(Ok(is_capture))
                } else {
                    self.answer(d)
                },
            forall|d: crate::path::PathView| #[trigger]
                p.names(d) == (d == crate::path::parsed(dev@) || self.names(d)),
    {
        self.with(dev, Ok(is_capture))
    }

    /// Makes one node fail with an error number.
    pub fn failing(self, dev: &str, errno: i32) -> (p: MapProbe)
        requires
            self.well_formed(),
        ensures
            p.well_formed(),
            p.log() == self.log(),
            forall|d: crate::path::PathView| #[trigger]
                p.answer(d) == if d == crate::path::parsed(dev@) {
                    Some(Err(errno))
                } else {
                    self.answer(d)
                },
            forall|d: crate::path::PathView| #[trigger]
                p.names(d) == (d == crate::path::parsed(dev@) || self.names(d)),
    {
        self.with(dev, Err(errno))
    }

    /// Answers for every node that is not named.
    pub fn default_capture(self, is_capture: bool) -> (p: MapProbe)
        requires
            self.well_formed(),
        ensures
            p.well_formed(),
            p.log() == self.log(),
            forall|d: crate::path::PathView| #[trigger]
                p.answer(d) == if self.names(d) {
                    self.answer(d)
                } else {
                    Some(Ok(is_capture))
                },
            forall|d: crate::path::PathView| #[trigger] p.names(d) == self.names(d),
    {
        let MapProbe { answers, default: _, asked, log } = self;
        MapProbe { answers, default: Some(is_capture), asked, log }
    }

    /// Every node the probe was asked about, in the order of the questions.
    pub fn asked(&self) -> (r: Vec<NodePath>)
        requires
            self.well_formed(),
        ensures
            crate::path::views(r@) == self.log().map_values(
                |e: (crate::path::PathView, Result<bool, super::probe::FailureView>)| e.0,
            ),
    {
        crate::path::copy_paths(&self.asked)
    }

    /// The answer for a node.
    fn find(&self, dev: &NodePath) -> (r: Option<Result<bool, i32>>)
        ensures
            r == self.answer(dev@),
    {
        let mut i: usize = self.answers.len();
        assert(self.answers@.take(i as int) =~= self.answers@);
        while i > 0
            invariant
                i <= self.answers@.len(),
                answer_in(self.answers@.take(i as int), dev@) == answer_in(self.answers@, dev@),
            decreases i,
        {
            i = i - 1;
            assert(self.answers@.take(i + 1).drop_last() =~= self.answers@.take(i as int));
            if self.answers[i].0.same(dev) {
                return Some(
                    match &self.answers[i].1 {
                        Ok(b) => Ok(*b),
                        Err(e) => Err(*e),
                    },
                );
            }
        }
        match self.default {
            Some(b) => Some(Ok(b)),
            None => None,
        }
    }
}

impl NodeProbe for MapProbe {
    closed spec fn log(&self) -> Seq<
        (crate::path::PathView, Result<bool, super::probe::FailureView>),
    > {
        self.log@
    }

    /// The table's answer. A node without one fails with a message that says so.
    fn is_capture_node(&mut self, dev: &NodePath) -> (r: Result<bool, ProbeFailure>)
        ensures
            old(self).well_formed() ==> final(self).well_formed(),
            forall|d: crate::path::PathView| #[trigger] final(self).answer(d) == old(self).answer(d),
            forall|d: crate::path::PathView| #[trigger] final(self).names(d) == old(self).names(d),
            match old(self).answer(dev@) {
                Some(Ok(b)) => r == Ok::<bool, ProbeFailure>(b),
                Some(Err(errno)) => r matches Err(e) && e.errno == Some(errno),
                None => r matches Err(e) && e.errno is None && e.message@ == no_answer(dev.words()),
            },
    {
        let r = match self.find(dev) {
            Some(Ok(b)) => Ok(b),
            Some(Err(errno)) => Err(
                ProbeFailure { message: errno::os_error_text(errno), errno: Some(errno) },
            ),
            None => {
                let mut message = "MapProbe has no answer for ".to_owned();
                message.append(dev.text());
                Err(ProbeFailure { message, errno: None })
            },
        };
        let ghost entry = (dev@, super::probe::answer_view(r));
        let ghost questions =
            |e: (crate::path::PathView, Result<bool, super::probe::FailureView>)| e.0;
        self.asked.push(dev.copy());
        self.log = Ghost(self.log@.push(entry));
        proof {
            assert(crate::path::views(self.asked@) =~= crate::path::views(old(self).asked@).push(
                dev@,
            ));
            assert(self.log@.map_values(questions) =~= old(self).log@.map_values(questions).push(
                dev@,
            ));
        }
        r
    }
}

} // verus!
