//! Video, serial and audio pairing from USB topology.
//!
//! Video and serial may be separate USB devices on different buses. Pairing prefers one shared
//! USB device, then the kernel's link between the two ports of one connector. The fallback asks
//! for direct children of the dongle's own hub, all three by their ids; those ids are not unique,
//! so the fallback is reported as degraded evidence. With several candidate pairs nothing is
//! selected unless a path is given.
//!
//! Candidate video nodes are asked once, read-only, whether they capture, which tells them from
//! their metadata siblings. Product names and node numbers identify nothing: both can change on a
//! reconnect.
//!
//! Audio pairs only with the capture node's own USB device. Missing or ambiguous audio takes
//! nothing from a video and serial pair.

pub mod laws;
pub mod listing;
pub mod nodes;
pub mod probe;
pub mod reopen;
pub mod sysfs;
pub mod testing;
pub mod topology;

pub use listing::Listing;
pub use nodes::{AudioPairing, Pair, SerialNode, SoundCard, VideoNode};
pub use probe::{NoProbe, NodeProbe, ProbeFailure};
pub use reopen::{
    CardResolver, DiscoveringCardOpener, DiscoveringLinkSource, DiscoveringOpener, Mode,
    NodeResolver, Resolved, ResolvedCard,
};
pub use sysfs::{RealSysfs, Sysfs};
pub use topology::{Evidence, UsbDevice, INTERNAL_HUB_ID, SERIAL_ID, VIDEO_ID};

use vstd::prelude::*;

use crate::errno;
use crate::path::{self, NodePath};
use nodes::{audio_for, collect_serial_nodes, collect_sound_cards, collect_video_nodes};
use topology::evidence_for;

verus! {

/// Everything found, the nodes that did not pair among it.
#[derive(Debug)]
pub struct Inventory {
    pub videos: Vec<VideoNode>,
    pub serials: Vec<SerialNode>,
    /// All sound cards, also those that are no USB device.
    pub cards: Vec<SoundCard>,
    pub pairs: Vec<Pair>,
}

/// Everything found.
#[verifier::ext_equal]
pub ghost struct InventoryView {
    pub videos: Seq<nodes::VideoView>,
    pub serials: Seq<nodes::SerialView>,
    pub cards: Seq<nodes::CardView>,
    pub pairs: Seq<nodes::PairView>,
}

impl View for Inventory {
    type V = InventoryView;

    open spec fn view(&self) -> InventoryView {
        InventoryView {
            videos: nodes::video_views(self.videos@),
            serials: nodes::serial_views(self.serials@),
            cards: nodes::card_views(self.cards@),
            pairs: nodes::pair_views(self.pairs@),
        }
    }
}

/// Paths that were given: `--video` and `--serial`.
#[derive(Debug)]
pub struct Constraints {
    pub video: Option<NodePath>,
    pub serial: Option<NodePath>,
}

/// Paths that were given.
#[verifier::ext_equal]
pub ghost struct ConstraintsView {
    pub video: Option<path::Spelled>,
    pub serial: Option<path::Spelled>,
}

/// The path of an optional one, with its text.
pub open spec fn spelled(p: Option<NodePath>) -> Option<path::Spelled> {
    match p {
        Some(p) => Some(p.spelled()),
        None => None,
    }
}

impl View for Constraints {
    type V = ConstraintsView;

    open spec fn view(&self) -> ConstraintsView {
        ConstraintsView { video: spelled(self.video), serial: spelled(self.serial) }
    }
}

impl Default for Constraints {
    fn default() -> (c: Constraints)
        ensures
            c@ == (ConstraintsView { video: None, serial: None }),
    {
        Constraints { video: None, serial: None }
    }
}

/// Which half of a pair a message is about.
#[derive(Clone, Copy, Debug, PartialEq, Eq, Structural)]
pub enum NodeKind {
    Video,
    Serial,
}

impl NodeKind {
    /// The flag that gives this node.
    pub open spec fn flag_words(self) -> Seq<char> {
        match self {
            NodeKind::Video => "--video"@,
            NodeKind::Serial => "--serial"@,
        }
    }

    /// The kind as text.
    pub open spec fn words(self) -> Seq<char> {
        match self {
            NodeKind::Video => "video"@,
            NodeKind::Serial => "serial"@,
        }
    }

    /// The other half.
    pub open spec fn counterpart(self) -> NodeKind {
        match self {
            NodeKind::Video => NodeKind::Serial,
            NodeKind::Serial => NodeKind::Video,
        }
    }

    /// The flag that gives this node.
    pub fn flag(self) -> (s: &'static str)
        ensures
            s@ == self.flag_words(),
    {
        match self {
            NodeKind::Video => "--video",
            NodeKind::Serial => "--serial",
        }
    }

    /// The other half.
    pub fn other(self) -> (r: NodeKind)
        ensures
            r == self.counterpart(),
    {
        match self {
            NodeKind::Video => NodeKind::Serial,
            NodeKind::Serial => NodeKind::Video,
        }
    }

    /// The kind as text.
    pub fn text(self) -> (s: &'static str)
        ensures
            s@ == self.words(),
    {
        match self {
            NodeKind::Video => "video",
            NodeKind::Serial => "serial",
        }
    }
}

/// Why discovery could not name one pair.
#[derive(Debug)]
pub enum DiscoveryError {
    NoVideoNodes,
    NoSerialNodes,
    NoPair(Inventory),
    Ambiguous(Inventory),
    /// Every probe was refused, so nothing tells a capture node from its metadata sibling. To
    /// call that ambiguous would blame the hardware for missing permissions.
    ProbesDenied(Inventory),
    /// A path that was given is no USB node on this system.
    ConstraintNotFound { kind: NodeKind, path: NodePath, available: Vec<NodePath> },
    /// One path was given and pairs with nothing, so the other half cannot be inferred.
    ConstraintUnpaired { kind: NodeKind, path: NodePath, inventory: Inventory },
}

/// Why discovery could not name one pair.
#[verifier::ext_equal]
pub ghost enum ErrorView {
    NoVideoNodes,
    NoSerialNodes,
    NoPair(InventoryView),
    Ambiguous(InventoryView),
    ProbesDenied(InventoryView),
    ConstraintNotFound { kind: NodeKind, path: path::Spelled, available: Seq<path::Spelled> },
    ConstraintUnpaired { kind: NodeKind, path: path::Spelled, inventory: InventoryView },
}

impl View for DiscoveryError {
    type V = ErrorView;

    open spec fn view(&self) -> ErrorView {
        match self {
            DiscoveryError::NoVideoNodes => ErrorView::NoVideoNodes,
            DiscoveryError::NoSerialNodes => ErrorView::NoSerialNodes,
            DiscoveryError::NoPair(inv) => ErrorView::NoPair(inv@),
            DiscoveryError::Ambiguous(inv) => ErrorView::Ambiguous(inv@),
            DiscoveryError::ProbesDenied(inv) => ErrorView::ProbesDenied(inv@),
            DiscoveryError::ConstraintNotFound { kind, path, available } =>
                ErrorView::ConstraintNotFound {
                kind: *kind,
                path: path.spelled(),
                available: path::spellings(available@),
            },
            DiscoveryError::ConstraintUnpaired { kind, path, inventory } =>
                ErrorView::ConstraintUnpaired {
                kind: *kind,
                path: path.spelled(),
                inventory: inventory@,
            },
        }
    }
}

// ---- the inventory -------------------------------------------------------------------------

/// A video node and a serial node that some rule joins: their places in the lists, and why.
#[verifier::ext_equal]
pub ghost struct Candidate {
    pub video: int,
    pub serial: int,
    pub evidence: topology::EvidenceView,
}

/// The evidence between two nodes, where both have a USB device.
pub open spec fn joins<S: Sysfs>(
    s: &S,
    video: Option<topology::UsbView>,
    serial: Option<topology::UsbView>,
) -> Option<topology::EvidenceView> {
    match (video, serial) {
        (Some(v), Some(t)) => topology::evidence(s, v, t),
        _ => None,
    }
}

/// The candidates of one video node among the first `n` serial nodes.
pub open spec fn candidates_of<S: Sysfs>(
    s: &S,
    videos: Seq<nodes::VideoView>,
    serials: Seq<nodes::SerialView>,
    vi: int,
    n: nat,
) -> Seq<Candidate>
    decreases n,
{
    if n == 0 {
        seq![]
    } else {
        let rest = candidates_of(s, videos, serials, vi, (n - 1) as nat);
        match joins(s, videos[vi].usb, serials[n - 1].usb) {
            Some(e) => rest.push(Candidate { video: vi, serial: n - 1, evidence: e }),
            None => rest,
        }
    }
}

/// The candidates of the first `n` video nodes.
pub open spec fn candidates<S: Sysfs>(
    s: &S,
    videos: Seq<nodes::VideoView>,
    serials: Seq<nodes::SerialView>,
    n: nat,
) -> Seq<Candidate>
    decreases n,
{
    if n == 0 {
        seq![]
    } else {
        candidates(s, videos, serials, (n - 1) as nat) + candidates_of(
            s,
            videos,
            serials,
            n - 1,
            serials.len(),
        )
    }
}

/// Whether a candidate's video node is on the USB device of `v`.
pub open spec fn is_wanted(
    v: nodes::VideoView,
    videos: Seq<nodes::VideoView>,
    found: Seq<Candidate>,
) -> bool {
    exists|k: int|
        #![trigger found[k]]
        0 <= k < found.len() && v.usb is Some && videos[found[k].video].usb is Some
            && videos[found[k].video].usb->0.sysfs.path == v.usb->0.sysfs.path
}

/// The nodes to ask among the first `n`, in their order: those on the device of a candidate.
pub open spec fn questions(
    videos: Seq<nodes::VideoView>,
    found: Seq<Candidate>,
    n: nat,
) -> Seq<path::PathView>
    decreases n,
{
    if n == 0 {
        seq![]
    } else {
        let rest = questions(videos, found, (n - 1) as nat);
        if is_wanted(videos[n - 1], videos, found) {
            rest.push(videos[n - 1].dev.path)
        } else {
            rest
        }
    }
}

/// A node with the probe's answer.
pub open spec fn answered(
    v: nodes::VideoView,
    answer: Result<bool, probe::FailureView>,
) -> nodes::VideoView {
    match answer {
        Ok(b) => nodes::VideoView { probed: true, is_capture: Some(b), ..v },
        Err(e) => nodes::VideoView { probed: true, probe_error: Some(e), ..v },
    }
}

/// The first `n` nodes, each of those that were asked with its answer.
pub open spec fn with_answers(
    videos: Seq<nodes::VideoView>,
    found: Seq<Candidate>,
    answers: Seq<Result<bool, probe::FailureView>>,
    n: nat,
) -> Seq<nodes::VideoView>
    decreases n,
{
    if n == 0 {
        seq![]
    } else {
        let before = (n - 1) as nat;
        let rest = with_answers(videos, found, answers, before);
        let v = videos[n - 1];
        if is_wanted(v, videos, found) {
            rest.push(answered(v, answers[questions(videos, found, before).len() as int]))
        } else {
            rest.push(v)
        }
    }
}

/// The pairs among the first `n` candidates: those whose video node can be selected.
pub open spec fn pairs_among(
    found: Seq<Candidate>,
    videos: Seq<nodes::VideoView>,
    serials: Seq<nodes::SerialView>,
    cards: Seq<nodes::CardView>,
    n: nat,
) -> Seq<nodes::PairView>
    decreases n,
{
    if n == 0 {
        seq![]
    } else {
        let rest = pairs_among(found, videos, serials, cards, (n - 1) as nat);
        let c = found[n - 1];
        if videos[c.video].eligible(videos) {
            rest.push(
                nodes::PairView {
                    video: videos[c.video],
                    serial: serials[c.serial],
                    evidence: Some(c.evidence),
                    audio: nodes::audio_of(videos[c.video].usb, cards),
                },
            )
        } else {
            rest
        }
    }
}

/// All candidates of a tree.
pub open spec fn candidates_in<S: Sysfs>(s: &S) -> Seq<Candidate> {
    candidates(s, nodes::videos_in(s), nodes::serials_in(s), nodes::videos_in(s).len())
}

/// The nodes that the inventory of a tree asks.
pub open spec fn questions_in<S: Sysfs>(s: &S) -> Seq<path::PathView> {
    questions(nodes::videos_in(s), candidates_in(s), nodes::videos_in(s).len())
}

/// The inventory of a tree, given the answers to its questions.
pub open spec fn inventory_of<S: Sysfs>(
    s: &S,
    answers: Seq<Result<bool, probe::FailureView>>,
) -> InventoryView {
    let found = candidates_in(s);
    let videos = with_answers(nodes::videos_in(s), found, answers, nodes::videos_in(s).len());
    InventoryView {
        videos,
        serials: nodes::serials_in(s),
        cards: nodes::cards_in(s),
        pairs: pairs_among(
            found,
            videos,
            nodes::serials_in(s),
            nodes::cards_in(s),
            found.len(),
        ),
    }
}

/// The questions of a probe's log.
pub open spec fn asked_in(
    log: Seq<(path::PathView, Result<bool, probe::FailureView>)>,
) -> Seq<path::PathView> {
    Seq::new(log.len(), |i: int| log[i].0)
}

/// The answers of a probe's log.
pub open spec fn answers_in(
    log: Seq<(path::PathView, Result<bool, probe::FailureView>)>,
) -> Seq<Result<bool, probe::FailureView>> {
    Seq::new(log.len(), |i: int| log[i].1)
}

/// What a log holds beyond an earlier one.
pub open spec fn newly_asked(
    before: Seq<(path::PathView, Result<bool, probe::FailureView>)>,
    after: Seq<(path::PathView, Result<bool, probe::FailureView>)>,
) -> Seq<(path::PathView, Result<bool, probe::FailureView>)> {
    after.skip(before.len() as int)
}

/// Whether a probe was asked the questions of a tree and nothing else.
pub open spec fn asked_about<S: Sysfs>(
    s: &S,
    before: Seq<(path::PathView, Result<bool, probe::FailureView>)>,
    after: Seq<(path::PathView, Result<bool, probe::FailureView>)>,
) -> bool {
    &&& after == before + newly_asked(before, after)
    &&& asked_in(newly_asked(before, after)) == questions_in(s)
}

pub(crate) proof fn lemma_candidates_of_in_range<S: Sysfs>(
    s: &S,
    videos: Seq<nodes::VideoView>,
    serials: Seq<nodes::SerialView>,
    vi: int,
    n: nat,
    k: int,
)
    requires
        n <= serials.len(),
        0 <= k < candidates_of(s, videos, serials, vi, n).len(),
    ensures
        candidates_of(s, videos, serials, vi, n)[k].video == vi,
        0 <= candidates_of(s, videos, serials, vi, n)[k].serial < n,
        joins(
            s,
            videos[vi].usb,
            serials[candidates_of(s, videos, serials, vi, n)[k].serial].usb,
        ) == Some(candidates_of(s, videos, serials, vi, n)[k].evidence),
    decreases n,
{
    if k < candidates_of(s, videos, serials, vi, (n - 1) as nat).len() {
        lemma_candidates_of_in_range(s, videos, serials, vi, (n - 1) as nat, k);
    }
}

pub(crate) proof fn lemma_candidates_in_range<S: Sysfs>(
    s: &S,
    videos: Seq<nodes::VideoView>,
    serials: Seq<nodes::SerialView>,
    n: nat,
    k: int,
)
    requires
        n <= videos.len(),
        0 <= k < candidates(s, videos, serials, n).len(),
    ensures
        ({
            let c = candidates(s, videos, serials, n)[k];
            &&& 0 <= c.video < n
            &&& 0 <= c.serial < serials.len()
            &&& joins(s, videos[c.video].usb, serials[c.serial].usb) == Some(c.evidence)
        }),
    decreases n,
{
    let rest = candidates(s, videos, serials, (n - 1) as nat);
    if k < rest.len() {
        lemma_candidates_in_range(s, videos, serials, (n - 1) as nat, k);
    } else {
        lemma_candidates_of_in_range(s, videos, serials, n - 1, serials.len(), k - rest.len());
    }
}

/// A candidate, by its places in the two lists.
struct Found {
    video: usize,
    serial: usize,
    evidence: Evidence,
}

spec fn found_views(v: Seq<Found>) -> Seq<Candidate> {
    Seq::new(
        v.len(),
        |i: int|
            Candidate {
                video: v[i].video as int,
                serial: v[i].serial as int,
                evidence: v[i].evidence@,
            },
    )
}

/// Joins every video node with every serial node, without asking any node.
fn find_candidates<S: Sysfs>(
    sysfs: &S,
    videos: &Vec<VideoNode>,
    serials: &Vec<SerialNode>,
) -> (r: Vec<Found>)
    requires
        sysfs.may_read(),
    ensures
        found_views(r@) == candidates(
            sysfs,
            nodes::video_views(videos@),
            nodes::serial_views(serials@),
            videos@.len(),
        ),
        forall|k: int|
            0 <= k < r@.len() ==> (#[trigger] r@[k]).video < videos@.len() && r@[k].serial
                < serials@.len(),
{
    let ghost vv = nodes::video_views(videos@);
    let ghost sv = nodes::serial_views(serials@);
    let mut r: Vec<Found> = Vec::new();
    let mut vi: usize = 0;
    assert(found_views(r@) =~= seq![]);
    while vi < videos.len()
        invariant
            vi <= videos@.len(),
            vv == nodes::video_views(videos@),
            sv == nodes::serial_views(serials@),
            sysfs.may_read(),
            found_views(r@) == candidates(sysfs, vv, sv, vi as nat),
            forall|k: int|
                0 <= k < r@.len() ==> (#[trigger] r@[k]).video < videos@.len() && r@[k].serial
                    < serials@.len(),
        decreases videos@.len() - vi,
    {
        let ghost rows = found_views(r@);
        let mut si: usize = 0;
        assert(rows + candidates_of(sysfs, vv, sv, vi as int, 0) =~= rows);
        while si < serials.len()
            invariant
                si <= serials@.len(),
                vi < videos@.len(),
                vv == nodes::video_views(videos@),
                sv == nodes::serial_views(serials@),
                sysfs.may_read(),
                found_views(r@) == rows + candidates_of(sysfs, vv, sv, vi as int, si as nat),
                forall|k: int|
                    0 <= k < r@.len() ==> (#[trigger] r@[k]).video < videos@.len() && r@[k].serial
                        < serials@.len(),
            decreases serials@.len() - si,
        {
            let ghost before = r@;
            proof {
                assert(vv[vi as int] == videos@[vi as int]@);
                assert(sv[si as int] == serials@[si as int]@);
            }
            if let (Some(v), Some(t)) = (&videos[vi].usb, &serials[si].usb) {
                if let Some(evidence) = evidence_for(sysfs, v, t) {
                    r.push(Found { video: vi, serial: si, evidence });
                    proof {
                        assert(found_views(r@) =~= found_views(before).push(
                            Candidate {
                                video: vi as int,
                                serial: si as int,
                                evidence: evidence@,
                            },
                        ));
                    }
                }
            }
            si = si + 1;
            assert(found_views(r@) =~= rows + candidates_of(sysfs, vv, sv, vi as int, si as nat));
        }
        vi = vi + 1;
    }
    r
}

/// Whether a candidate's video node is on the USB device of `v`.
fn wanted(v: &VideoNode, videos: &Vec<VideoNode>, found: &Vec<Found>) -> (r: bool)
    requires
        forall|k: int| 0 <= k < found@.len() ==> (#[trigger] found@[k]).video < videos@.len(),
    ensures
        r == is_wanted(v@, nodes::video_views(videos@), found_views(found@)),
{
    let ghost vv = nodes::video_views(videos@);
    let ghost fv = found_views(found@);
    let mut k: usize = 0;
    while k < found.len()
        invariant
            k <= found@.len(),
            vv == nodes::video_views(videos@),
            fv == found_views(found@),
            forall|j: int| 0 <= j < found@.len() ==> (#[trigger] found@[j]).video < videos@.len(),
            forall|j: int|
                0 <= j < k ==> !(v@.usb is Some && vv[(#[trigger] fv[j]).video].usb is Some
                    && vv[fv[j].video].usb->0.sysfs.path == v@.usb->0.sysfs.path),
        decreases found@.len() - k,
    {
        let vi: usize = found[k].video;
        assert(fv[k as int].video == vi);
        assert(vv[vi as int] == videos@[vi as int]@);
        if let (Some(a), Some(b)) = (&v.usb, &videos[vi].usb) {
            if a.sysfs.same(&b.sysfs) {
                return true;
            }
        }
        k = k + 1;
    }
    false
}

/// Asks the nodes on the devices of candidates.
fn ask_nodes<P: NodeProbe>(
    probe: &mut P,
    videos: &Vec<VideoNode>,
    found: &Vec<Found>,
) -> (r: Vec<VideoNode>)
    requires
        forall|k: int| 0 <= k < found@.len() ==> (#[trigger] found@[k]).video < videos@.len(),
    ensures
        final(probe).log() == old(probe).log() + newly_asked(old(probe).log(), final(probe).log()),
        asked_in(newly_asked(old(probe).log(), final(probe).log())) == questions(
            nodes::video_views(videos@),
            found_views(found@),
            videos@.len(),
        ),
        nodes::video_views(r@) == with_answers(
            nodes::video_views(videos@),
            found_views(found@),
            answers_in(newly_asked(old(probe).log(), final(probe).log())),
            videos@.len(),
        ),
{
    let ghost vv = nodes::video_views(videos@);
    let ghost fv = found_views(found@);
    let ghost before = probe.log();
    let mut r: Vec<VideoNode> = Vec::new();
    let mut i: usize = 0;
    proof {
        assert(newly_asked(before, before) =~= seq![]);
        assert(before + newly_asked(before, before) =~= before);
        assert(asked_in(newly_asked(before, before)) =~= seq![]);
        assert(nodes::video_views(r@) =~= seq![]);
    }
    while i < videos.len()
        invariant
            i <= videos@.len(),
            vv == nodes::video_views(videos@),
            fv == found_views(found@),
            forall|k: int| 0 <= k < found@.len() ==> (#[trigger] found@[k]).video < videos@.len(),
            probe.log() == before + newly_asked(before, probe.log()),
            asked_in(newly_asked(before, probe.log())) == questions(vv, fv, i as nat),
            nodes::video_views(r@) == with_answers(
                vv,
                fv,
                answers_in(newly_asked(before, probe.log())),
                i as nat,
            ),
        decreases videos@.len() - i,
    {
        let ghost log = newly_asked(before, probe.log());
        let ghost shown = r@;
        assert(vv[i as int] == videos@[i as int]@);
        let mut v = videos[i].copy();
        if wanted(&videos[i], videos, found) {
            v.probed = true;
            let answer = probe.is_capture_node(&videos[i].dev);
            let ghost reply = probe::answer_view(answer);
            match answer {
                Ok(is_capture) => {
                    v.is_capture = Some(is_capture);
                },
                Err(e) => {
                    v.probe_error = Some(e);
                },
            }
            proof {
                let now = newly_asked(before, probe.log());
                let entry = (vv[i as int].dev.path, reply);
                assert(now =~= log.push(entry));
                assert(probe.log() =~= before + now);
                assert(asked_in(now) =~= asked_in(log).push(entry.0));
                assert(answers_in(now) =~= answers_in(log).push(reply));
                assert(asked_in(log).len() == log.len());
                lemma_answers_extend(vv, fv, answers_in(log), reply, i as nat);
                assert(v@ =~= answered(vv[i as int], reply));
            }
        }
        r.push(v);
        assert(nodes::video_views(r@) =~= nodes::video_views(shown).push(v@));
        i = i + 1;
    }
    r
}

/// An answer that comes later changes nothing for the nodes before it.
proof fn lemma_answers_extend(
    videos: Seq<nodes::VideoView>,
    found: Seq<Candidate>,
    answers: Seq<Result<bool, probe::FailureView>>,
    more: Result<bool, probe::FailureView>,
    n: nat,
)
    requires
        questions(videos, found, n).len() <= answers.len(),
    ensures
        with_answers(videos, found, answers.push(more), n) == with_answers(
            videos,
            found,
            answers,
            n,
        ),
    decreases n,
{
    if n > 0 {
        let before = (n - 1) as nat;
        assert(questions(videos, found, before).len() <= questions(videos, found, n).len());
        lemma_answers_extend(videos, found, answers, more, before);
    }
}

/// The nodes keep their number, their paths and their devices when they are asked.
pub(crate) proof fn lemma_answers_keep_nodes(
    videos: Seq<nodes::VideoView>,
    found: Seq<Candidate>,
    answers: Seq<Result<bool, probe::FailureView>>,
    n: nat,
)
    requires
        n <= videos.len(),
    ensures
        with_answers(videos, found, answers, n).len() == n,
        forall|i: int|
            0 <= i < n ==> {
                &&& (#[trigger] with_answers(videos, found, answers, n)[i]).dev == videos[i].dev
                &&& with_answers(videos, found, answers, n)[i].usb == videos[i].usb
                &&& with_answers(videos, found, answers, n)[i].probed == (videos[i].probed
                    || is_wanted(videos[i], videos, found))
            },
    decreases n,
{
    if n > 0 {
        lemma_answers_keep_nodes(videos, found, answers, (n - 1) as nat);
    }
}

/// Makes pairs of the candidates whose video node can be selected.
fn make_pairs(
    found: &Vec<Found>,
    videos: &Vec<VideoNode>,
    serials: &Vec<SerialNode>,
    cards: &Vec<SoundCard>,
) -> (r: Vec<Pair>)
    requires
        forall|k: int|
            0 <= k < found@.len() ==> (#[trigger] found@[k]).video < videos@.len()
                && found@[k].serial < serials@.len(),
    ensures
        nodes::pair_views(r@) == pairs_among(
            found_views(found@),
            nodes::video_views(videos@),
            nodes::serial_views(serials@),
            nodes::card_views(cards@),
            found@.len(),
        ),
{
    let ghost fv = found_views(found@);
    let ghost vv = nodes::video_views(videos@);
    let ghost sv = nodes::serial_views(serials@);
    let mut r: Vec<Pair> = Vec::new();
    let mut i: usize = 0;
    assert(nodes::pair_views(r@) =~= seq![]);
    while i < found.len()
        invariant
            i <= found@.len(),
            fv == found_views(found@),
            vv == nodes::video_views(videos@),
            sv == nodes::serial_views(serials@),
            forall|k: int|
                0 <= k < found@.len() ==> (#[trigger] found@[k]).video < videos@.len()
                    && found@[k].serial < serials@.len(),
            nodes::pair_views(r@) == pairs_among(
                fv,
                vv,
                sv,
                nodes::card_views(cards@),
                i as nat,
            ),
        decreases found@.len() - i,
    {
        let f = &found[i];
        let video = &videos[f.video];
        let ghost before = r@;
        proof {
            assert(fv[i as int].video == f.video);
            assert(vv[f.video as int] == video@);
            assert(sv[f.serial as int] == serials@[f.serial as int]@);
        }
        if video.eligible(videos) {
            let pair = Pair {
                audio: audio_for(&video.usb, cards),
                video: video.copy(),
                serial: serials[f.serial].copy(),
                evidence: Some(f.evidence.copy()),
            };
            r.push(pair);
            assert(nodes::pair_views(r@) =~= nodes::pair_views(before).push(pair@));
        }
        i = i + 1;
    }
    r
}

/// Whether the tree may be read as discovery does it: three classes are listed, and no other
/// directory.
pub open spec fn may_discover<S: Sysfs>(s: &S) -> bool {
    &&& s.may_read()
    &&& s.may_list(path::parsed(nodes::VIDEO_CLASS@))
    &&& s.may_list(path::parsed(nodes::TTY_CLASS@))
    &&& s.may_list(path::parsed(nodes::SOUND_CLASS@))
}

/// Collects the nodes and applies the pairing rules.
///
/// The topology comes first. Only video nodes on the device of a candidate are asked; the others
/// could not be selected whatever they said.
pub fn inventory<S: Sysfs, P: NodeProbe>(sysfs: &S, probe: &mut P) -> (r: Inventory)
    requires
        may_discover(sysfs),
    ensures
        asked_about(sysfs, old(probe).log(), final(probe).log()),
        r@ == inventory_of(sysfs, answers_in(newly_asked(old(probe).log(), final(probe).log()))),
{
    let videos = collect_video_nodes(sysfs);
    let serials = collect_serial_nodes(sysfs);
    let cards = collect_sound_cards(sysfs);
    let found = find_candidates(sysfs, &videos, &serials);
    assert(nodes::video_views(videos@).len() == videos@.len());
    let ghost plain = nodes::video_views(videos@);
    let videos = ask_nodes(probe, &videos, &found);
    proof {
        lemma_answers_keep_nodes(
            plain,
            found_views(found@),
            answers_in(newly_asked(old(probe).log(), probe.log())),
            plain.len(),
        );
        assert(nodes::video_views(videos@).len() == videos@.len());
        assert(found_views(found@).len() == found@.len());
    }
    let pairs = make_pairs(&found, &videos, &serials, &cards);
    Inventory { videos, serials, cards, pairs }
}

// ---- the verdict ---------------------------------------------------------------------------

/// The first video node with a path.
pub open spec fn find_video_in(videos: Seq<nodes::VideoView>, dev: path::PathView) -> Option<
    nodes::VideoView,
>
    decreases videos.len(),
{
    if videos.len() == 0 {
        None
    } else if videos[0].dev.path == dev {
        Some(videos[0])
    } else {
        find_video_in(videos.drop_first(), dev)
    }
}

/// The first serial node with a path.
pub open spec fn find_serial_in(serials: Seq<nodes::SerialView>, dev: path::PathView) -> Option<
    nodes::SerialView,
>
    decreases serials.len(),
{
    if serials.len() == 0 {
        None
    } else if serials[0].dev.path == dev {
        Some(serials[0])
    } else {
        find_serial_in(serials.drop_first(), dev)
    }
}

/// The path of one half of a pair.
pub open spec fn half(p: nodes::PairView, kind: NodeKind) -> path::PathView {
    match kind {
        NodeKind::Video => p.video.dev.path,
        NodeKind::Serial => p.serial.dev.path,
    }
}

/// The pairs whose half of the given kind is `dev`, in their order.
pub open spec fn pairs_with(
    pairs: Seq<nodes::PairView>,
    kind: NodeKind,
    dev: path::PathView,
) -> Seq<nodes::PairView>
    decreases pairs.len(),
{
    if pairs.len() == 0 {
        seq![]
    } else {
        let rest = pairs_with(pairs.drop_last(), kind, dev);
        if half(pairs.last(), kind) == dev {
            rest.push(pairs.last())
        } else {
            rest
        }
    }
}

impl InventoryView {
    /// The inventory with only the pairs whose half of the given kind is `dev`.
    pub open spec fn retaining(self, kind: NodeKind, dev: path::PathView) -> InventoryView {
        InventoryView { pairs: pairs_with(self.pairs, kind, dev), ..self }
    }

    /// Whether some video node was asked, and every one of them was refused for want of
    /// permission.
    pub open spec fn every_probe_denied(self) -> bool {
        &&& exists|i: int| 0 <= i < self.videos.len() && (#[trigger] self.videos[i]).probed
        &&& forall|i: int|
            0 <= i < self.videos.len() && (#[trigger] self.videos[i]).probed
                ==> self.videos[i].probe_error is Some && self.videos[i].probe_error->0.errno
                == Some(13i32)
    }

    /// Several pairs: a permissions problem where no node could be asked, and ambiguous otherwise.
    pub open spec fn ambiguity(self) -> ErrorView {
        if self.every_probe_denied() {
            ErrorView::ProbesDenied(self)
        } else {
            ErrorView::Ambiguous(self)
        }
    }

    /// The one pair of the inventory, or what is wrong with the number of its pairs.
    pub open spec fn only_pair(self, none: ErrorView) -> Result<nodes::PairView, ErrorView> {
        if self.pairs.len() == 1 {
            Ok(self.pairs[0])
        } else if self.pairs.len() == 0 {
            Err(none)
        } else {
            Err(self.ambiguity())
        }
    }
}

/// A pair of two paths that were given: what is known of each, the evidence if there is any, and
/// the video node's card.
pub open spec fn explicit_of<S: Sysfs>(
    s: &S,
    inv: InventoryView,
    video: path::Spelled,
    serial: path::Spelled,
) -> nodes::PairView {
    let v = match find_video_in(inv.videos, video.path) {
        Some(v) => v,
        None => nodes::VideoView {
            dev: video,
            usb: None,
            is_capture: None,
            probe_error: None,
            probed: false,
        },
    };
    let t = match find_serial_in(inv.serials, serial.path) {
        Some(t) => t,
        None => nodes::SerialView { dev: serial, usb: None },
    };
    nodes::PairView {
        video: v,
        serial: t,
        evidence: joins(s, v.usb, t.usb),
        audio: nodes::audio_of(v.usb, inv.cards),
    }
}

/// The paths of video nodes.
pub open spec fn video_paths(videos: Seq<nodes::VideoView>) -> Seq<path::Spelled> {
    Seq::new(videos.len(), |i: int| videos[i].dev)
}

/// The paths of serial nodes.
pub open spec fn serial_paths(serials: Seq<nodes::SerialView>) -> Seq<path::Spelled> {
    Seq::new(serials.len(), |i: int| serials[i].dev)
}

/// The pair that an inventory and the given paths select, or why there is none.
///
/// Two given paths are always taken. One narrows the pairs to those with it and needs exactly one;
/// with none given, the inventory itself needs exactly one.
pub open spec fn verdict<S: Sysfs>(s: &S, inv: InventoryView, c: ConstraintsView) -> Result<
    nodes::PairView,
    ErrorView,
> {
    match (c.video, c.serial) {
        (Some(v), Some(t)) => Ok(explicit_of(s, inv, v, t)),
        _ => if inv.videos.len() == 0 {
            Err(ErrorView::NoVideoNodes)
        } else if inv.serials.len() == 0 {
            Err(ErrorView::NoSerialNodes)
        } else {
            match (c.video, c.serial) {
                (Some(p), _) => match find_video_in(inv.videos, p.path) {
                    Some(v) => {
                        let left = inv.retaining(NodeKind::Video, v.dev.path);
                        left.only_pair(
                            ErrorView::ConstraintUnpaired {
                                kind: NodeKind::Video,
                                path: v.dev,
                                inventory: left,
                            },
                        )
                    },
                    None => Err(
                        ErrorView::ConstraintNotFound {
                            kind: NodeKind::Video,
                            path: p,
                            available: video_paths(inv.videos),
                        },
                    ),
                },
                (None, Some(p)) => match find_serial_in(inv.serials, p.path) {
                    Some(t) => {
                        let left = inv.retaining(NodeKind::Serial, t.dev.path);
                        left.only_pair(
                            ErrorView::ConstraintUnpaired {
                                kind: NodeKind::Serial,
                                path: t.dev,
                                inventory: left,
                            },
                        )
                    },
                    None => Err(
                        ErrorView::ConstraintNotFound {
                            kind: NodeKind::Serial,
                            path: p,
                            available: serial_paths(inv.serials),
                        },
                    ),
                },
                (None, None) => inv.only_pair(ErrorView::NoPair(inv)),
            }
        },
    }
}

/// A result of discovery.
pub open spec fn outcome(r: Result<Pair, DiscoveryError>) -> Result<nodes::PairView, ErrorView> {
    match r {
        Ok(p) => Ok(p@),
        Err(e) => Err(e@),
    }
}

impl Inventory {
    /// The video node with a path.
    pub fn video(&self, dev: &NodePath) -> (r: Option<&VideoNode>)
        ensures
            match r {
                Some(v) => find_video_in(self@.videos, dev@) == Some(v@),
                None => find_video_in(self@.videos, dev@) is None,
            },
    {
        let ghost all = self@.videos;
        let mut i: usize = 0;
        assert(all.skip(0) =~= all);
        while i < self.videos.len()
            invariant
                i <= self.videos@.len(),
                all == self@.videos,
                find_video_in(all.skip(i as int), dev@) == find_video_in(all, dev@),
            decreases self.videos@.len() - i,
        {
            assert(all.skip(i as int)[0] == self.videos@[i as int]@);
            if self.videos[i].dev.same(dev) {
                return Some(&self.videos[i]);
            }
            assert(all.skip(i as int).drop_first() =~= all.skip(i + 1));
            i = i + 1;
        }
        None
    }

    /// The serial node with a path.
    pub fn serial(&self, dev: &NodePath) -> (r: Option<&SerialNode>)
        ensures
            match r {
                Some(t) => find_serial_in(self@.serials, dev@) == Some(t@),
                None => find_serial_in(self@.serials, dev@) is None,
            },
    {
        let ghost all = self@.serials;
        let mut i: usize = 0;
        assert(all.skip(0) =~= all);
        while i < self.serials.len()
            invariant
                i <= self.serials@.len(),
                all == self@.serials,
                find_serial_in(all.skip(i as int), dev@) == find_serial_in(all, dev@),
            decreases self.serials@.len() - i,
        {
            assert(all.skip(i as int)[0] == self.serials@[i as int]@);
            if self.serials[i].dev.same(dev) {
                return Some(&self.serials[i]);
            }
            assert(all.skip(i as int).drop_first() =~= all.skip(i + 1));
            i = i + 1;
        }
        None
    }

    /// A copy with only the pairs whose half of the given kind is `dev`, so that a report names
    /// the choice that is left.
    pub fn retaining_pairs(self, kind: NodeKind, dev: &NodePath) -> (r: Inventory)
        ensures
            r@ == self@.retaining(kind, dev@),
    {
        let ghost all = self@.pairs;
        let mut pairs: Vec<Pair> = Vec::new();
        let mut i: usize = 0;
        assert(all.take(0) =~= seq![]);
        assert(nodes::pair_views(pairs@) =~= seq![]);
        while i < self.pairs.len()
            invariant
                i <= self.pairs@.len(),
                all == nodes::pair_views(self.pairs@),
                nodes::pair_views(pairs@) == pairs_with(all.take(i as int), kind, dev@),
            decreases self.pairs@.len() - i,
        {
            let ghost before = pairs@;
            proof {
                assert(all.take(i + 1).drop_last() =~= all.take(i as int));
                assert(all.take(i + 1).last() == self.pairs@[i as int]@);
            }
            let keep = match kind {
                NodeKind::Video => self.pairs[i].video.dev.same(dev),
                NodeKind::Serial => self.pairs[i].serial.dev.same(dev),
            };
            if keep {
                let p = self.pairs[i].copy();
                pairs.push(p);
                assert(nodes::pair_views(pairs@) =~= nodes::pair_views(before).push(p@));
            }
            i = i + 1;
        }
        assert(all.take(all.len() as int) =~= all);
        Inventory { videos: self.videos, serials: self.serials, cards: self.cards, pairs }
    }

    /// Whether some video node was asked, and every one of them was refused for want of
    /// permission.
    pub fn every_probe_denied(&self) -> (r: bool)
        ensures
            r == self@.every_probe_denied(),
    {
        let mut any = false;
        let mut i: usize = 0;
        while i < self.videos.len()
            invariant
                i <= self.videos@.len(),
                any == (exists|k: int| 0 <= k < i && (#[trigger] self@.videos[k]).probed),
                forall|k: int|
                    0 <= k < i && (#[trigger] self@.videos[k]).probed
                        ==> self@.videos[k].probe_error is Some
                        && self@.videos[k].probe_error->0.errno == Some(13i32),
            decreases self.videos@.len() - i,
        {
            let v = &self.videos[i];
            assert(self@.videos[i as int] == v@);
            if v.probed {
                any = true;
                let denied = match &v.probe_error {
                    Some(e) => match e.errno {
                        Some(n) => n == errno::eacces(),
                        None => false,
                    },
                    None => false,
                };
                if !denied {
                    return false;
                }
            }
            i = i + 1;
        }
        any
    }
}

/// Several pairs, or every probe refused.
fn ambiguous(inv: Inventory) -> (e: DiscoveryError)
    ensures
        e@ == inv@.ambiguity(),
{
    if inv.every_probe_denied() {
        DiscoveryError::ProbesDenied(inv)
    } else {
        DiscoveryError::Ambiguous(inv)
    }
}

/// The one pair that a given path left, or what it left instead.
fn one_pair(inv: Inventory, kind: NodeKind, path: NodePath) -> (r: Result<Pair, DiscoveryError>)
    ensures
        outcome(r) == inv@.only_pair(
            ErrorView::ConstraintUnpaired { kind, path: path.spelled(), inventory: inv@ },
        ),
{
    if inv.pairs.len() == 1 {
        assert(inv@.pairs[0] == inv.pairs@[0]@);
        Ok(inv.pairs[0].copy())
    } else if inv.pairs.len() == 0 {
        Err(DiscoveryError::ConstraintUnpaired { kind, path, inventory: inv })
    } else {
        Err(ambiguous(inv))
    }
}

/// Makes a pair of two paths that were given.
fn explicit_pair<S: Sysfs>(
    sysfs: &S,
    inv: &Inventory,
    video: &NodePath,
    serial: &NodePath,
) -> (r: Pair)
    requires
        sysfs.may_read(),
    ensures
        r@ == explicit_of(sysfs, inv@, video.spelled(), serial.spelled()),
{
    let video = match inv.video(video) {
        Some(v) => v.copy(),
        None => VideoNode {
            dev: video.copy(),
            usb: None,
            is_capture: None,
            probe_error: None,
            probed: false,
        },
    };
    let serial = match inv.serial(serial) {
        Some(t) => t.copy(),
        None => SerialNode { dev: serial.copy(), usb: None },
    };
    let evidence = match (&video.usb, &serial.usb) {
        (Some(v), Some(t)) => evidence_for(sysfs, v, t),
        _ => None,
    };
    let audio = audio_for(&video.usb, &inv.cards);
    Pair { video, serial, evidence, audio }
}

/// Every video node's path.
fn video_devs(videos: &Vec<VideoNode>) -> (r: Vec<NodePath>)
    ensures
        path::spellings(r@) == video_paths(nodes::video_views(videos@)),
{
    let mut r: Vec<NodePath> = Vec::new();
    let ghost all = video_paths(nodes::video_views(videos@));
    let mut i: usize = 0;
    while i < videos.len()
        invariant
            i <= videos@.len(),
            all == video_paths(nodes::video_views(videos@)),
            path::spellings(r@) == all.take(i as int),
        decreases videos@.len() - i,
    {
        let ghost before = r@;
        let p = videos[i].dev.copy();
        r.push(p);
        i = i + 1;
        proof {
            assert(path::spellings(r@) =~= path::spellings(before).push(p.spelled()));
            assert(nodes::video_views(videos@)[i - 1] == videos@[i - 1]@);
            assert(all.take(i as int) =~= all.take(i - 1).push(p.spelled()));
        }
    }
    assert(all.take(all.len() as int) =~= all);
    r
}

/// Every serial node's path.
fn serial_devs(serials: &Vec<SerialNode>) -> (r: Vec<NodePath>)
    ensures
        path::spellings(r@) == serial_paths(nodes::serial_views(serials@)),
{
    let mut r: Vec<NodePath> = Vec::new();
    let ghost all = serial_paths(nodes::serial_views(serials@));
    let mut i: usize = 0;
    while i < serials.len()
        invariant
            i <= serials@.len(),
            all == serial_paths(nodes::serial_views(serials@)),
            path::spellings(r@) == all.take(i as int),
        decreases serials@.len() - i,
    {
        let ghost before = r@;
        let p = serials[i].dev.copy();
        r.push(p);
        i = i + 1;
        proof {
            assert(path::spellings(r@) =~= path::spellings(before).push(p.spelled()));
            assert(nodes::serial_views(serials@)[i - 1] == serials@[i - 1]@);
            assert(all.take(i as int) =~= all.take(i - 1).push(p.spelled()));
        }
    }
    assert(all.take(all.len() as int) =~= all);
    r
}

/// The video node with a given path, or the error that lists the others.
fn find_video(inv: &Inventory, path: &NodePath) -> (r: Result<NodePath, DiscoveryError>)
    ensures
        match r {
            Ok(dev) => find_video_in(inv@.videos, path@) matches Some(v) && v.dev == dev.spelled(),
            Err(e) => find_video_in(inv@.videos, path@) is None && e@
                == ErrorView::ConstraintNotFound {
                kind: NodeKind::Video,
                path: path.spelled(),
                available: video_paths(inv@.videos),
            },
        },
{
    match inv.video(path) {
        Some(v) => Ok(v.dev.copy()),
        None => Err(
            DiscoveryError::ConstraintNotFound {
                kind: NodeKind::Video,
                path: path.copy(),
                available: video_devs(&inv.videos),
            },
        ),
    }
}

/// The serial node with a given path, or the error that lists the others.
fn find_serial(inv: &Inventory, path: &NodePath) -> (r: Result<NodePath, DiscoveryError>)
    ensures
        match r {
            Ok(dev) => find_serial_in(inv@.serials, path@) matches Some(t) && t.dev
                == dev.spelled(),
            Err(e) => find_serial_in(inv@.serials, path@) is None && e@
                == ErrorView::ConstraintNotFound {
                kind: NodeKind::Serial,
                path: path.spelled(),
                available: serial_paths(inv@.serials),
            },
        },
{
    match inv.serial(path) {
        Some(t) => Ok(t.dev.copy()),
        None => Err(
            DiscoveryError::ConstraintNotFound {
                kind: NodeKind::Serial,
                path: path.copy(),
                available: serial_devs(&inv.serials),
            },
        ),
    }
}

/// The pair that an inventory and the given paths select. The tree is read only where both paths
/// were given.
pub fn select<S: Sysfs>(sysfs: &S, inv: Inventory, constraints: &Constraints) -> (r: Result<
    Pair,
    DiscoveryError,
>)
    requires
        constraints@.video is Some && constraints@.serial is Some ==> sysfs.may_read(),
    ensures
        outcome(r) == verdict(sysfs, inv@, constraints@),
{
    if let (Some(video), Some(serial)) = (&constraints.video, &constraints.serial) {
        return Ok(explicit_pair(sysfs, &inv, video, serial));
    }
    assert(inv@.videos.len() == inv.videos@.len());
    assert(inv@.serials.len() == inv.serials@.len());
    if inv.videos.len() == 0 {
        return Err(DiscoveryError::NoVideoNodes);
    }
    if inv.serials.len() == 0 {
        return Err(DiscoveryError::NoSerialNodes);
    }
    match (&constraints.video, &constraints.serial) {
        (Some(p), _) => match find_video(&inv, p) {
            Ok(dev) => one_pair(inv.retaining_pairs(NodeKind::Video, &dev), NodeKind::Video, dev),
            Err(e) => Err(e),
        },
        (None, Some(p)) => match find_serial(&inv, p) {
            Ok(dev) => one_pair(
                inv.retaining_pairs(NodeKind::Serial, &dev),
                NodeKind::Serial,
                dev,
            ),
            Err(e) => Err(e),
        },
        (None, None) => if inv.pairs.len() == 1 {
            assert(inv@.pairs[0] == inv.pairs@[0]@);
            Ok(inv.pairs[0].copy())
        } else if inv.pairs.len() == 0 {
            Err(DiscoveryError::NoPair(inv))
        } else {
            Err(ambiguous(inv))
        },
    }
}

/// Selects a pair or says why there is none.
///
/// Two given paths are taken even without evidence. One narrows the candidate pairs and needs a
/// unique match. With neither, no pair is [`DiscoveryError::NoPair`] and several are
/// [`DiscoveryError::Ambiguous`]. The inventory is collected in every case, for the report.
pub fn discover<S: Sysfs, P: NodeProbe>(
    sysfs: &S,
    probe: &mut P,
    constraints: &Constraints,
) -> (r: Result<Pair, DiscoveryError>)
    requires
        may_discover(sysfs),
    ensures
        asked_about(sysfs, old(probe).log(), final(probe).log()),
        outcome(r) == verdict(
            sysfs,
            inventory_of(sysfs, answers_in(newly_asked(old(probe).log(), final(probe).log()))),
            constraints@,
        ),
{
    let inv = inventory(sysfs, probe);
    select(sysfs, inv, constraints)
}

// ---- what discovery promises ---------------------------------------------------------------

pub(crate) proof fn lemma_find_video(videos: Seq<nodes::VideoView>, dev: path::PathView)
    ensures
        find_video_in(videos, dev) matches Some(v) ==> v.dev.path == dev && videos.contains(v),
    decreases videos.len(),
{
    if videos.len() > 0 && videos[0].dev.path != dev {
        lemma_find_video(videos.drop_first(), dev);
        if let Some(v) = find_video_in(videos, dev) {
            let i = choose|i: int| 0 <= i < videos.len() - 1 && videos.drop_first()[i] == v;
            assert(videos[i + 1] == v);
        }
    }
}

pub(crate) proof fn lemma_find_serial(serials: Seq<nodes::SerialView>, dev: path::PathView)
    ensures
        find_serial_in(serials, dev) matches Some(t) ==> t.dev.path == dev && serials.contains(t),
    decreases serials.len(),
{
    if serials.len() > 0 && serials[0].dev.path != dev {
        lemma_find_serial(serials.drop_first(), dev);
        if let Some(t) = find_serial_in(serials, dev) {
            let i = choose|i: int| 0 <= i < serials.len() - 1 && serials.drop_first()[i] == t;
            assert(serials[i + 1] == t);
        }
    }
}

/// Two given paths are always taken, whatever the tree and the inventory hold.
pub proof fn two_given_paths_are_always_taken<S: Sysfs>(
    s: &S,
    inv: InventoryView,
    video: path::Spelled,
    serial: path::Spelled,
)
    ensures
        verdict(s, inv, ConstraintsView { video: Some(video), serial: Some(serial) }) matches Ok(p)
            && p.video.dev.path == video.path && p.serial.dev.path == serial.path,
{
    lemma_find_video(inv.videos, video.path);
    lemma_find_serial(inv.serials, serial.path);
}

/// Whether a pair has the paths that were given.
pub open spec fn agrees(p: nodes::PairView, c: ConstraintsView) -> bool {
    (c.video matches Some(v) ==> p.video.dev.path == v.path) && (c.serial matches Some(t)
        ==> p.serial.dev.path == t.path)
}

pub(crate) proof fn lemma_pairs_with(
    pairs: Seq<nodes::PairView>,
    kind: NodeKind,
    dev: path::PathView,
    p: nodes::PairView,
)
    ensures
        pairs_with(pairs, kind, dev).contains(p) <==> pairs.contains(p) && half(p, kind) == dev,
    decreases pairs.len(),
{
    if pairs.len() > 0 {
        let head = pairs.drop_last();
        let rest = pairs_with(head, kind, dev);
        let kept = pairs_with(pairs, kind, dev);
        lemma_pairs_with(head, kind, dev, p);
        assert(pairs =~= head.push(pairs.last()));
        if pairs.contains(p) && half(p, kind) == dev {
            let i = choose|i: int| 0 <= i < pairs.len() && pairs[i] == p;
            if i < head.len() {
                assert(head[i] == p);
                let k = choose|k: int| 0 <= k < rest.len() && rest[k] == p;
                assert(kept[k] == p);
            } else {
                assert(kept.last() == p);
            }
        }
        if kept.contains(p) {
            let k = choose|k: int| 0 <= k < kept.len() && kept[k] == p;
            if k < rest.len() {
                assert(rest[k] == p);
                let i = choose|i: int| 0 <= i < head.len() && head[i] == p;
                assert(pairs[i] == p);
            } else {
                assert(pairs[pairs.len() - 1] == p);
            }
        }
    }
}

/// Discovery never guesses: a pair that was not given in full is in the inventory, has every path
/// that was given, and is the only such pair.
pub proof fn a_selected_pair_is_the_only_candidate<S: Sysfs>(
    s: &S,
    inv: InventoryView,
    c: ConstraintsView,
)
    requires
        c.video is None || c.serial is None,
    ensures
        verdict(s, inv, c) matches Ok(p) ==> {
            &&& inv.pairs.contains(p)
            &&& agrees(p, c)
            &&& forall|q: nodes::PairView| #[trigger]
                inv.pairs.contains(q) && agrees(q, c) ==> q == p
        },
{
    if let Ok(p) = verdict(s, inv, c) {
        match (c.video, c.serial) {
            (Some(v), _) => {
                lemma_find_video(inv.videos, v.path);
                let left = pairs_with(inv.pairs, NodeKind::Video, v.path);
                assert(left[0] == p);
                lemma_pairs_with(inv.pairs, NodeKind::Video, v.path, p);
                assert forall|q: nodes::PairView| #[trigger]
                    inv.pairs.contains(q) && agrees(q, c) implies q == p by {
                    lemma_pairs_with(inv.pairs, NodeKind::Video, v.path, q);
                }
            },
            (None, Some(t)) => {
                lemma_find_serial(inv.serials, t.path);
                let left = pairs_with(inv.pairs, NodeKind::Serial, t.path);
                assert(left[0] == p);
                lemma_pairs_with(inv.pairs, NodeKind::Serial, t.path, p);
                assert forall|q: nodes::PairView| #[trigger]
                    inv.pairs.contains(q) && agrees(q, c) implies q == p by {
                    lemma_pairs_with(inv.pairs, NodeKind::Serial, t.path, q);
                }
            },
            (None, None) => {
                assert(inv.pairs[0] == p);
            },
        }
    }
}

pub(crate) proof fn lemma_pairs_among(
    found: Seq<Candidate>,
    videos: Seq<nodes::VideoView>,
    serials: Seq<nodes::SerialView>,
    cards: Seq<nodes::CardView>,
    n: nat,
    k: int,
)
    requires
        n <= found.len(),
        0 <= k < pairs_among(found, videos, serials, cards, n).len(),
    ensures
        exists|i: int|
            0 <= i < n && videos[(#[trigger] found[i]).video].eligible(videos) && pairs_among(
                found,
                videos,
                serials,
                cards,
                n,
            )[k] == (nodes::PairView {
                video: videos[found[i].video],
                serial: serials[found[i].serial],
                evidence: Some(found[i].evidence),
                audio: nodes::audio_of(videos[found[i].video].usb, cards),
            }),
    decreases n,
{
    let rest = pairs_among(found, videos, serials, cards, (n - 1) as nat);
    if k < rest.len() {
        lemma_pairs_among(found, videos, serials, cards, (n - 1) as nat, k);
    } else {
        assert(videos[found[n - 1].video].eligible(videos));
    }
}

/// Every pair of an inventory rests on the evidence between its two USB devices, its video node
/// can be selected, and its card is on the video node's device.
pub proof fn every_pair_rests_on_evidence<S: Sysfs>(
    s: &S,
    answers: Seq<Result<bool, probe::FailureView>>,
    k: int,
)
    requires
        0 <= k < inventory_of(s, answers).pairs.len(),
    ensures
        ({
            let inv = inventory_of(s, answers);
            let p = inv.pairs[k];
            &&& inv.videos.contains(p.video)
            &&& inv.serials.contains(p.serial)
            &&& p.video.usb is Some
            &&& p.serial.usb is Some
            &&& p.evidence is Some
            &&& p.evidence == topology::evidence(s, p.video.usb->0, p.serial.usb->0)
            &&& p.video.eligible(inv.videos)
            &&& p.video.is_capture != Some(false)
            &&& p.audio == nodes::audio_of(p.video.usb, inv.cards)
        }),
{
    let inv = inventory_of(s, answers);
    let plain = nodes::videos_in(s);
    let found = candidates_in(s);
    lemma_answers_keep_nodes(plain, found, answers, plain.len());
    lemma_pairs_among(found, inv.videos, inv.serials, inv.cards, found.len(), k);
    let i = choose|i: int|
        0 <= i < found.len() && inv.videos[(#[trigger] found[i]).video].eligible(inv.videos)
            && inv.pairs[k] == (nodes::PairView {
            video: inv.videos[found[i].video],
            serial: inv.serials[found[i].serial],
            evidence: Some(found[i].evidence),
            audio: nodes::audio_of(inv.videos[found[i].video].usb, inv.cards),
        });
    lemma_candidates_in_range(s, plain, inv.serials, plain.len(), i);
}

/// A node is asked exactly where some rule joins a node of its USB device with a serial node: no
/// unrelated device is ever opened.
pub proof fn only_candidates_are_asked<S: Sysfs>(
    s: &S,
    answers: Seq<Result<bool, probe::FailureView>>,
    i: int,
)
    requires
        0 <= i < inventory_of(s, answers).videos.len(),
    ensures
        ({
            let inv = inventory_of(s, answers);
            inv.videos[i].probed ==> exists|v: int, t: int|
                #![trigger inv.videos[v], inv.serials[t]]
                0 <= v < inv.videos.len() && 0 <= t < inv.serials.len() && inv.videos[i].usb is Some
                    && inv.videos[v].usb is Some && inv.videos[v].usb->0.sysfs.path
                    == inv.videos[i].usb->0.sysfs.path && joins(
                    s,
                    inv.videos[v].usb,
                    inv.serials[t].usb,
                ) is Some
        }),
{
    let inv = inventory_of(s, answers);
    let plain = nodes::videos_in(s);
    let found = candidates_in(s);
    lemma_answers_keep_nodes(plain, found, answers, plain.len());
    if inv.videos[i].probed {
        assert(!plain[i].probed);
        assert(is_wanted(plain[i], plain, found));
        let k = choose|k: int|
            #![trigger found[k]]
            0 <= k < found.len() && plain[i].usb is Some && plain[found[k].video].usb is Some
                && plain[found[k].video].usb->0.sysfs.path == plain[i].usb->0.sysfs.path;
        lemma_candidates_in_range(s, plain, inv.serials, plain.len(), k);
        let (v, t) = (found[k].video, found[k].serial);
        assert(inv.videos[v].usb == plain[v].usb);
        assert(inv.serials[t] == inv.serials[t]);
    }
}

/// Two inventories that differ in nothing but their sound cards.
pub open spec fn same_but_audio(a: InventoryView, b: InventoryView) -> bool {
    &&& a.videos == b.videos
    &&& a.serials == b.serials
    &&& a.pairs.len() == b.pairs.len()
    &&& forall|i: int|
        0 <= i < a.pairs.len() ==> (#[trigger] a.pairs[i]).video == b.pairs[i].video
            && a.pairs[i].serial == b.pairs[i].serial && a.pairs[i].evidence == b.pairs[i].evidence
}

proof fn lemma_pairs_with_but_audio(
    a: Seq<nodes::PairView>,
    b: Seq<nodes::PairView>,
    kind: NodeKind,
    dev: path::PathView,
)
    requires
        a.len() == b.len(),
        forall|i: int|
            0 <= i < a.len() ==> (#[trigger] a[i]).video == b[i].video && a[i].serial == b[i].serial
                && a[i].evidence == b[i].evidence,
    ensures
        ({
            let (x, y) = (pairs_with(a, kind, dev), pairs_with(b, kind, dev));
            &&& x.len() == y.len()
            &&& forall|i: int|
                0 <= i < x.len() ==> (#[trigger] x[i]).video == y[i].video && x[i].serial
                    == y[i].serial && x[i].evidence == y[i].evidence
        }),
    decreases a.len(),
{
    if a.len() > 0 {
        assert forall|i: int| 0 <= i < a.len() - 1 implies (#[trigger] a.drop_last()[i]).video
            == b.drop_last()[i].video && a.drop_last()[i].serial == b.drop_last()[i].serial
            && a.drop_last()[i].evidence == b.drop_last()[i].evidence by {
            assert(a[i].video == b[i].video);
        }
        lemma_pairs_with_but_audio(a.drop_last(), b.drop_last(), kind, dev);
        assert(a[a.len() - 1].video == b[a.len() - 1].video);
    }
}

/// Audio never decides: whether a pair is selected, and which nodes it has, is the same whatever
/// sound cards there are.
pub proof fn audio_never_decides<S: Sysfs>(
    s: &S,
    a: InventoryView,
    b: InventoryView,
    c: ConstraintsView,
)
    requires
        same_but_audio(a, b),
    ensures
        verdict(s, a, c) is Ok <==> verdict(s, b, c) is Ok,
        verdict(s, a, c) is Ok ==> verdict(s, a, c)->Ok_0.video == verdict(s, b, c)->Ok_0.video
            && verdict(s, a, c)->Ok_0.serial == verdict(s, b, c)->Ok_0.serial
            && verdict(s, a, c)->Ok_0.evidence == verdict(s, b, c)->Ok_0.evidence,
{
    match (c.video, c.serial) {
        (Some(_), Some(_)) => {},
        (Some(p), None) => {
            if let Some(v) = find_video_in(a.videos, p.path) {
                lemma_pairs_with_but_audio(a.pairs, b.pairs, NodeKind::Video, v.dev.path);
                let x = pairs_with(a.pairs, NodeKind::Video, v.dev.path);
                if x.len() == 1 {
                    assert(x[0].video == x[0].video);
                }
            }
        },
        (None, Some(p)) => {
            if let Some(t) = find_serial_in(a.serials, p.path) {
                lemma_pairs_with_but_audio(a.pairs, b.pairs, NodeKind::Serial, t.dev.path);
                let x = pairs_with(a.pairs, NodeKind::Serial, t.dev.path);
                if x.len() == 1 {
                    assert(x[0].video == x[0].video);
                }
            }
        },
        (None, None) => {
            if a.pairs.len() == 1 {
                assert(a.pairs[0].video == b.pairs[0].video);
            }
        },
    }
}

} // verus!
