//! Read-only video capability queries.
//!
//! A capture node and its metadata sibling have the same place on the bus. Only what each node
//! says of itself tells them apart.

use vstd::prelude::*;

use crate::path::NodePath;

verus! {

/// Why a probe could not answer for a node.
#[derive(Debug)]
pub struct ProbeFailure {
    pub message: String,
    /// The error number, where the error had one.
    pub errno: Option<i32>,
}

/// A failed probe.
#[verifier::ext_equal]
pub ghost struct FailureView {
    pub message: Seq<char>,
    pub errno: Option<i32>,
}

impl View for ProbeFailure {
    type V = FailureView;

    open spec fn view(&self) -> FailureView {
        FailureView { message: self.message@, errno: self.errno }
    }
}

impl ProbeFailure {
    /// The same failure once more.
    pub fn copy(&self) -> (r: ProbeFailure)
        ensures
            r@ == self@,
    {
        ProbeFailure { message: self.message.clone(), errno: self.errno }
    }
}

/// What a probe answered.
pub open spec fn answer_view(r: Result<bool, ProbeFailure>) -> Result<bool, FailureView> {
    match r {
        Ok(b) => Ok(b),
        Err(e) => Err(e@),
    }
}

/// Asks video nodes whether they deliver frames.
pub trait NodeProbe {
    /// Every node asked so far, with its answer.
    closed spec fn log(&self) -> Seq<(crate::path::PathView, Result<bool, FailureView>)> {
        arbitrary()
    }

    /// Whether the node can capture and stream video and is no metadata node.
    fn is_capture_node(&mut self, dev: &NodePath) -> (r: Result<bool, ProbeFailure>)
        ensures
            final(self).log() == old(self).log().push((dev@, answer_view(r))),
    ;
}

/// Whether a node with these capabilities delivers frames: it captures video, streams, and is no
/// metadata node.
pub fn delivers_frames(video_capture: bool, streaming: bool, meta_capture: bool) -> (r: bool)
    ensures
        r == (video_capture && streaming && !meta_capture),
{
    video_capture && streaming && !meta_capture
}

/// What [`NoProbe`] answers.
pub const NOT_PROBED: &'static str = "not probed: --sysfs-root names a recorded tree, whose /dev names belong to this machine's own devices";

/// The probe for recorded trees: opens no device and leaves every answer open.
///
/// Recorded paths can name unrelated hardware on this machine. With no answer the candidate nodes
/// stay visible, and nothing pretends to know which one carries video.
pub struct NoProbe {
    log: Ghost<Seq<(crate::path::PathView, Result<bool, FailureView>)>>,
}

impl NoProbe {
    pub fn new() -> (p: NoProbe)
        ensures
            p.log() == Seq::<(crate::path::PathView, Result<bool, FailureView>)>::empty(),
    {
        NoProbe { log: Ghost(Seq::empty()) }
    }
}

impl NodeProbe for NoProbe {
    closed spec fn log(&self) -> Seq<(crate::path::PathView, Result<bool, FailureView>)> {
        self.log@
    }

    fn is_capture_node(&mut self, dev: &NodePath) -> (r: Result<bool, ProbeFailure>)
        ensures
            answer_view(r) == Err::<bool, FailureView>(
                FailureView { message: NOT_PROBED@, errno: None },
            ),
    {
        let r = Err(ProbeFailure { message: NOT_PROBED.to_owned(), errno: None });
        self.log = Ghost(self.log@.push((dev@, answer_view(r))));
        r
    }
}

} // verus!
