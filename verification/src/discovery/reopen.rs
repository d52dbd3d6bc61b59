//! Rediscovery on reconnect.
//!
//! A node that was discovered is rediscovered on every attempt: a device that comes back gets the
//! lowest free name, which need not be its old one. A node that was given is reopened by that path
//! and nothing else, and discovery is never consulted for it. The two modes are per node:
//! `--video` alone fixes the video node and leaves the serial node to be inferred from it again on
//! every attempt.
//!
//! The sound card differs twice. Its failures are [`AudioError`]s, because a missing card must not
//! stop anything else. And it does not run discovery: it is found from the capture node's USB
//! device alone, so that no video node is opened again and again while a card is missing.

use std::sync::atomic::AtomicBool;
use std::sync::Arc;

use vstd::prelude::*;

use super::nodes::{audio_for, collect_sound_cards};
use super::topology::{self, read_usb_device};
use super::{
    discover, nodes, probe, AudioPairing, Constraints, DiscoveryError, Evidence, NodeKind,
    NodeProbe, SoundCard, Sysfs,
};
use crate::audio::AudioError;
use crate::capture::decoder;
use crate::capture::{CaptureError, V4l2Opener};
use crate::path::{self, NodePath};
use crate::text;

verus! {

/// How a node's path is found again.
#[derive(Debug)]
pub enum Mode {
    /// The path that was given, for ever.
    Explicit(NodePath),
    /// Discovery with the original constraints, on every attempt.
    Discover,
}

/// How a node's path is found again.
#[verifier::ext_equal]
pub ghost enum ModeView {
    Explicit(path::Spelled),
    Discover,
}

impl View for Mode {
    type V = ModeView;

    open spec fn view(&self) -> ModeView {
        match self {
            Mode::Explicit(p) => ModeView::Explicit(p.spelled()),
            Mode::Discover => ModeView::Discover,
        }
    }
}

/// A node's path and what justifies it.
#[derive(Debug)]
pub struct Resolved {
    /// The node to open.
    pub path: NodePath,
    /// What joins this node to the other half of the dongle, when discovery ran.
    pub evidence: Option<Evidence>,
    /// Whether discovery was consulted.
    pub discovered: bool,
}

/// A node's path and what justifies it.
#[verifier::ext_equal]
pub ghost struct ResolvedView {
    pub path: path::Spelled,
    pub evidence: Option<topology::EvidenceView>,
    pub discovered: bool,
}

impl View for Resolved {
    type V = ResolvedView;

    open spec fn view(&self) -> ResolvedView {
        ResolvedView {
            path: self.path.spelled(),
            evidence: topology::evidence_view(self.evidence),
            discovered: self.discovered,
        }
    }
}

/// A result of a resolution.
pub open spec fn resolution(r: Result<Resolved, DiscoveryError>) -> Result<
    ResolvedView,
    super::ErrorView,
> {
    match r {
        Ok(v) => Ok(v@),
        Err(e) => Err(e@),
    }
}

/// The node of one kind in a discovered pair.
pub open spec fn resolved_in(kind: NodeKind, p: nodes::PairView) -> ResolvedView {
    ResolvedView {
        path: match kind {
            NodeKind::Video => p.video.dev,
            NodeKind::Serial => p.serial.dev,
        },
        evidence: p.evidence,
        discovered: true,
    }
}

/// Resolves one node's path, again and again, under one policy.
///
/// It holds the constraints that the process started with, not the path that came of them: to ask
/// again with the answer would make a wrong first answer permanent.
#[derive(Debug)]
pub struct NodeResolver {
    kind: NodeKind,
    constraints: Constraints,
}

impl NodeResolver {
    /// Which node it is for.
    pub closed spec fn node(&self) -> NodeKind {
        self.kind
    }

    /// What was given.
    pub closed spec fn given(&self) -> super::ConstraintsView {
        self.constraints@
    }

    /// The policy, which the path given for this node alone decides.
    pub open spec fn policy(&self) -> ModeView {
        let given = match self.node() {
            NodeKind::Video => self.given().video,
            NodeKind::Serial => self.given().serial,
        };
        match given {
            Some(p) => ModeView::Explicit(p),
            None => ModeView::Discover,
        }
    }

    /// A resolver for one kind of node.
    pub fn new(kind: NodeKind, constraints: Constraints) -> (r: NodeResolver)
        ensures
            r.node() == kind,
            r.given() == constraints@,
    {
        NodeResolver { kind, constraints }
    }

    /// Which node it is for.
    pub fn kind(&self) -> (r: NodeKind)
        ensures
            r == self.node(),
    {
        self.kind
    }

    /// The policy for this node.
    pub fn mode(&self) -> (r: Mode)
        ensures
            r@ == self.policy(),
    {
        let given = match self.kind {
            NodeKind::Video => &self.constraints.video,
            NodeKind::Serial => &self.constraints.serial,
        };
        match given {
            Some(p) => Mode::Explicit(p.copy()),
            None => Mode::Discover,
        }
    }

    /// The path to open now, in the tree as it is now.
    ///
    /// A path that was given touches nothing: no read of the tree, no probe. Otherwise discovery
    /// runs, and may fail: that is the ordinary answer while a device is still coming back.
    pub fn resolve<S: Sysfs, P: NodeProbe>(&self, sysfs: &S, probe: &mut P) -> (r: Result<
        Resolved,
        DiscoveryError,
    >)
        requires
            self.policy() is Discover ==> super::may_discover(sysfs),
        ensures
            match self.policy() {
                ModeView::Explicit(p) => *final(probe) == *old(probe) && resolution(r) == Ok::<
                    ResolvedView,
                    super::ErrorView,
                >(ResolvedView { path: p, evidence: None, discovered: false }),
                ModeView::Discover => super::asked_about(
                    sysfs,
                    old(probe).log(),
                    final(probe).log(),
                ) && resolution(r) == match super::verdict(
                    sysfs,
                    super::inventory_of(
                        sysfs,
                        super::answers_in(
                            super::newly_asked(old(probe).log(), final(probe).log()),
                        ),
                    ),
                    self.given(),
                ) {
                    Ok(p) => Ok(resolved_in(self.node(), p)),
                    Err(e) => Err(e),
                },
            },
    {
        if let Mode::Explicit(path) = self.mode() {
            return Ok(Resolved { path, evidence: None, discovered: false });
        }
        match discover(sysfs, probe, &self.constraints) {
            Ok(pair) => {
                let path = match self.kind {
                    NodeKind::Video => pair.video.dev,
                    NodeKind::Serial => pair.serial.dev,
                };
                Ok(Resolved { path, evidence: pair.evidence, discovered: true })
            },
            Err(e) => Err(e),
        }
    }
}

/// A line for the log.
#[derive(Debug)]
pub struct Notice {
    /// Whether the device is another one than before, which is worth a warning.
    pub moved: bool,
    pub text: String,
}

/// Why a node was chosen.
pub open spec fn because(kind: NodeKind, r: ResolvedView) -> Seq<char> {
    match r.evidence {
        Some(e) => "rediscovered — "@ + e.words(),
        None => if r.discovered {
            "rediscovered — no USB topology evidence (both nodes given explicitly)"@
        } else {
            kind.flag_words() + " was given explicitly"@
        },
    }
}

/// Whether a node is another one than before.
pub open spec fn node_moved(r: ResolvedView, previous: Option<path::Spelled>) -> bool {
    previous is Some && previous->0.path != r.path.path
}

/// One line per reopening: which node was chosen, and why.
pub open spec fn resolution_words(
    kind: NodeKind,
    r: ResolvedView,
    previous: Option<path::Spelled>,
) -> Seq<char> {
    if node_moved(r, previous) {
        kind.words() + " node moved: "@ + previous->0.text + " is now "@ + r.path.text + " ("@
            + because(kind, r) + ")"@
    } else {
        kind.words() + " node for this attempt: "@ + r.path.text + " ("@ + because(kind, r) + ")"@
    }
}

fn reason(kind: NodeKind, resolved: &Resolved) -> (s: String)
    ensures
        s@ == because(kind, resolved@),
{
    match &resolved.evidence {
        Some(e) => "rediscovered — ".to_owned().concat(e.text().as_str()),
        None => if resolved.discovered {
            "rediscovered — no USB topology evidence (both nodes given explicitly)".to_owned()
        } else {
            kind.flag().to_owned().concat(" was given explicitly")
        },
    }
}

/// The line for a resolution.
pub fn log_resolution(kind: NodeKind, resolved: &Resolved, previous: &Option<NodePath>) -> (n:
    Notice)
    ensures
        n.moved == node_moved(resolved@, super::spelled(*previous)),
        n.text@ == resolution_words(kind, resolved@, super::spelled(*previous)),
{
    let mut text = kind.text().to_owned();
    let mut moved = false;
    if let Some(p) = previous {
        if !p.same(&resolved.path) {
            moved = true;
            text.append(" node moved: ");
            text.append(p.text());
            text.append(" is now ");
        }
    }
    if !moved {
        text.append(" node for this attempt: ");
    }
    text.append(resolved.path.text());
    text.append(" (");
    text.append(reason(kind, resolved).as_str());
    text.append(")");
    assert(text@ =~= resolution_words(kind, resolved@, super::spelled(*previous)));
    Notice { moved, text }
}

// ---- the serial link -----------------------------------------------------------------------

/// Which serial node to open, resolved before every opening.
#[derive(Debug)]
pub struct DiscoveringLinkSource {
    resolver: NodeResolver,
    baud: u32,
    /// The node that the link was last made for.
    current: Option<NodePath>,
}

/// A serial node to open.
#[derive(Debug)]
pub struct LinkTarget {
    pub path: NodePath,
    pub notice: Notice,
}

impl DiscoveringLinkSource {
    pub closed spec fn serial(&self) -> NodeResolver {
        self.resolver
    }

    pub closed spec fn rate(&self) -> u32 {
        self.baud
    }

    /// The node that the link was last made for.
    pub closed spec fn node(&self) -> Option<path::Spelled> {
        super::spelled(self.current)
    }

    /// A link that resolves its node through `resolver`.
    pub fn new(resolver: NodeResolver, baud: u32) -> (r: DiscoveringLinkSource)
        ensures
            r.serial() == resolver,
            r.rate() == baud,
            r.node() is None,
    {
        DiscoveringLinkSource { resolver, baud, current: None }
    }

    /// The node to open now, or why the link is down. While the dongle is out of its socket there
    /// is no pair to find, and the attempt is repeated.
    pub fn open<S: Sysfs, P: NodeProbe>(&self, sysfs: &S, probe: &mut P) -> (r: Result<
        LinkTarget,
        String,
    >)
        requires
            self.serial().policy() is Discover ==> super::may_discover(sysfs),
        ensures
            self.serial().policy() is Discover ==> super::asked_about(
                sysfs,
                old(probe).log(),
                final(probe).log(),
            ),
            self.serial().policy() is Explicit ==> *final(probe) == *old(probe),
            match attempt(
                self.serial(),
                sysfs,
                super::answers_in(super::newly_asked(old(probe).log(), final(probe).log())),
            ) {
                Ok(v) => {
                    &&& r matches Ok(t)
                    &&& t.path.spelled() == v.path
                    &&& t.notice.moved == node_moved(v, self.node())
                    &&& t.notice.text@ == resolution_words(NodeKind::Serial, v, self.node())
                },
                Err(e) => r matches Err(s) && s@ == "serial node: "@ + e.words(),
            },
    {
        match self.resolver.resolve(sysfs, probe) {
            Ok(resolved) => {
                let notice = log_resolution(NodeKind::Serial, &resolved, &self.current);
                Ok(LinkTarget { path: resolved.path, notice })
            },
            Err(e) => Err("serial node: ".to_owned().concat(e.text().as_str())),
        }
    }

    /// Whether the link was last made for the node at `path`.
    pub open spec fn is_at(&self, path: path::Spelled) -> bool {
        self.node() is Some && self.node()->0.path == path.path
    }

    /// Points the link at `path`. `rebuild` makes a new link, only where the node is another one
    /// than before; a link that could not be made leaves the old node noted, so that the next
    /// attempt makes it.
    pub fn inner_for<E, F: FnOnce(&NodePath) -> Result<(), E>>(
        &mut self,
        path: &NodePath,
        rebuild: F,
    ) -> (r: Result<(), E>)
        requires
            rebuild.requires((path,)),
        ensures
            final(self).serial() == old(self).serial(),
            final(self).rate() == old(self).rate(),
            if old(self).is_at(path.spelled()) {
                r is Ok && final(self).node() == old(self).node()
            } else {
                &&& rebuild.ensures((path,), r)
                &&& final(self).node() == if r is Ok {
                    Some(path.spelled())
                } else {
                    old(self).node()
                }
            },
    {
        let there = match &self.current {
            Some(p) => p.same(path),
            None => false,
        };
        if there {
            return Ok(());
        }
        let made = rebuild(path);
        if made.is_ok() {
            self.current = Some(path.copy());
        }
        made
    }

    /// The link in words: what it will open, since this is asked before any node is resolved.
    pub fn describe(&self) -> (s: String)
        ensures
            s@ == match self.serial().policy() {
                ModeView::Explicit(p) => p.text + " at "@ + text::decimal(self.rate() as nat)
                    + " baud"@,
                ModeView::Discover => "the serial node §8 discovery names, at "@ + text::decimal(
                    self.rate() as nat,
                ) + " baud (rediscovered on each attempt)"@,
            },
    {
        match self.resolver.mode() {
            Mode::Explicit(p) => {
                let mut s = p.text().to_owned();
                s.append(" at ");
                text::push_decimal(&mut s, self.baud as u128);
                s.append(" baud");
                s
            },
            Mode::Discover => {
                let mut s = "the serial node §8 discovery names, at ".to_owned();
                text::push_decimal(&mut s, self.baud as u128);
                s.append(" baud (rediscovered on each attempt)");
                s
            },
        }
    }
}

/// What one attempt to resolve a node comes to, given the answers of the nodes that were asked.
pub open spec fn attempt<S: Sysfs>(
    r: NodeResolver,
    s: &S,
    answers: Seq<Result<bool, probe::FailureView>>,
) -> Result<ResolvedView, super::ErrorView> {
    match r.policy() {
        ModeView::Explicit(p) => Ok(
            ResolvedView { path: p, evidence: None, discovered: false },
        ),
        ModeView::Discover => match super::verdict(s, super::inventory_of(s, answers), r.given()) {
            Ok(p) => Ok(resolved_in(r.node(), p)),
            Err(e) => Err(e),
        },
    }
}

/// A path that was given is what every attempt comes to, whatever the tree holds and whatever the
/// nodes answer.
pub proof fn a_given_path_is_reopened_for_ever<S: Sysfs, T: Sysfs>(
    r: NodeResolver,
    before: &S,
    now: &T,
    answers: Seq<Result<bool, probe::FailureView>>,
    others: Seq<Result<bool, probe::FailureView>>,
)
    requires
        r.policy() is Explicit,
    ensures
        attempt(r, before, answers) == attempt(r, now, others),
        attempt(r, now, others) is Ok,
{
}

// ---- the video source ----------------------------------------------------------------------

/// Which video node to open, resolved before every reopening.
///
/// The first source is handed in open, so that a start without a device is a failure with a
/// message. Every later opening is an attempt that is repeated.
pub struct DiscoveringOpener<F> {
    resolver: NodeResolver,
    width: u32,
    height: u32,
    fps: u32,
    /// The source that was handed in, until it is handed out.
    first: Option<F>,
    /// The path that was last opened.
    last: Option<NodePath>,
}

/// What to do to open the video source.
pub enum VideoOpening<F> {
    /// It is open already.
    Ready(F),
    /// Open this node.
    Node { opener: V4l2Opener, notice: Notice },
}

/// The size and the rate of the next opening.
#[derive(Clone, Copy, Debug, PartialEq, Eq, Structural)]
pub struct Format {
    pub width: u32,
    pub height: u32,
    pub fps: u32,
}

impl<F> DiscoveringOpener<F> {
    pub closed spec fn video(&self) -> NodeResolver {
        self.resolver
    }

    pub closed spec fn format(&self) -> Format {
        Format { width: self.width, height: self.height, fps: self.fps }
    }

    /// The source that was handed in and not handed out yet.
    pub closed spec fn in_hand(&self) -> Option<F> {
        self.first
    }

    /// The path that was last opened.
    pub closed spec fn node(&self) -> Option<path::Spelled> {
        super::spelled(self.last)
    }

    /// An opener that hands out `first`, which streams from `path`, and then resolves.
    pub fn with_open_source(
        resolver: NodeResolver,
        first: F,
        path: NodePath,
        width: u32,
        height: u32,
        fps: u32,
    ) -> (r: DiscoveringOpener<F>)
        ensures
            r.video() == resolver,
            r.format() == (Format { width, height, fps }),
            r.in_hand() == Some(first),
            r.node() == Some(path.spelled()),
    {
        DiscoveringOpener { resolver, width, height, fps, first: Some(first), last: Some(path) }
    }

    /// An opener with no source in hand.
    pub fn new(resolver: NodeResolver, width: u32, height: u32, fps: u32) -> (r: DiscoveringOpener<
        F,
    >)
        ensures
            r.video() == resolver,
            r.format() == (Format { width, height, fps }),
            r.in_hand() is None,
            r.node() is None,
    {
        DiscoveringOpener { resolver, width, height, fps, first: None, last: None }
    }

    /// The source in hand, or the node to open, or why there is none. A source in hand is handed
    /// out without a look at the tree.
    ///
    /// A failure of discovery is a configuration error: its message says how to resolve it.
    pub fn open<S: Sysfs, P: NodeProbe>(&mut self, sysfs: &S, probe: &mut P) -> (r: Result<
        VideoOpening<F>,
        CaptureError,
    >)
        requires
            old(self).in_hand() is None && old(self).video().policy() is Discover
                ==> super::may_discover(sysfs),
        ensures
            final(self).video() == old(self).video(),
            final(self).format() == old(self).format(),
            final(self).in_hand() is None,
            old(self).in_hand() is Some || old(self).video().policy() is Explicit
                ==> *final(probe) == *old(probe),
            old(self).in_hand() is None && old(self).video().policy() is Discover
                ==> super::asked_about(sysfs, old(probe).log(), final(probe).log()),
            match old(self).in_hand() {
                Some(source) => {
                    &&& r matches Ok(VideoOpening::Ready(out))
                    &&& out == source
                    &&& final(self).node() == old(self).node()
                },
                None => match attempt(
                    old(self).video(),
                    sysfs,
                    super::answers_in(super::newly_asked(old(probe).log(), final(probe).log())),
                ) {
                    Ok(v) => {
                        &&& r matches Ok(VideoOpening::Node { opener, notice })
                        &&& opener.path@ == v.path.text
                        &&& opener.width == old(self).format().width
                        &&& opener.height == old(self).format().height
                        &&& opener.fps == old(self).format().fps
                        &&& opener.timeout is None
                        &&& notice.moved == node_moved(v, old(self).node())
                        &&& notice.text@ == resolution_words(NodeKind::Video, v, old(self).node())
                        &&& final(self).node() == Some(v.path)
                    },
                    Err(e) => {
                        &&& r matches Err(CaptureError::Config(s))
                        &&& s@ == "video node: "@ + e.words()
                        &&& final(self).node() == old(self).node()
                    },
                },
            },
    {
        let mut first = None;
        core::mem::swap(&mut first, &mut self.first);
        if let Some(source) = first {
            return Ok(VideoOpening::Ready(source));
        }
        match self.resolver.resolve(sysfs, probe) {
            Ok(resolved) => {
                let notice = log_resolution(NodeKind::Video, &resolved, &self.last);
                let opener = V4l2Opener::new(
                    resolved.path.text().to_owned(),
                    self.width,
                    self.height,
                    self.fps,
                );
                self.last = Some(resolved.path);
                Ok(VideoOpening::Node { opener, notice })
            },
            Err(e) => Err(
                CaptureError::Config("video node: ".to_owned().concat(e.text().as_str())),
            ),
        }
    }

    /// What would be opened, in words.
    pub fn describe(&self) -> (s: String)
        ensures
            s@ == opener_words(self.video().policy(), self.node(), self.format()),
    {
        let mut s = "V4L2 ".to_owned();
        let how = match (self.resolver.mode(), &self.last) {
            (Mode::Explicit(p), _) => {
                s.append(p.text());
                ""
            },
            (Mode::Discover, Some(p)) => {
                s.append(p.text());
                " (node rediscovered on each reopen)"
            },
            (Mode::Discover, None) => {
                s.append("the node §8 discovery names");
                " (rediscovered on each reopen)"
            },
        };
        s.append(" MJPG ");
        decoder::push_size(&mut s, self.width, self.height);
        s.append(" @");
        text::push_decimal(&mut s, self.fps as u128);
        s.append(" fps");
        s.append(how);
        s
    }

    /// Changes the mode that the next opening negotiates, and drops the source in hand: it streams
    /// at the old one.
    pub fn set_format(&mut self, width: u32, height: u32, fps: u32) -> (r: bool)
        ensures
            r,
            final(self).video() == old(self).video(),
            final(self).format() == (Format { width, height, fps }),
            final(self).in_hand() is None,
            final(self).node() == old(self).node(),
    {
        self.width = width;
        self.height = height;
        self.fps = fps;
        self.first = None;
        true
    }
}

/// What an opener would open, in words.
pub open spec fn opener_words(
    policy: ModeView,
    last: Option<path::Spelled>,
    format: Format,
) -> Seq<char> {
    let (node, how) = match policy {
        ModeView::Explicit(p) => (p.text, ""@),
        ModeView::Discover => match last {
            Some(p) => (p.text, " (node rediscovered on each reopen)"@),
            None => ("the node §8 discovery names"@, " (rediscovered on each reopen)"@),
        },
    };
    "V4L2 "@ + node + " MJPG "@ + decoder::size_words(format.width as nat, format.height as nat)
        + " @"@ + text::decimal(format.fps as nat) + " fps"@ + how
}

// ---- the sound card ------------------------------------------------------------------------

/// Finds the dongle's card, again before every opening: card numbers change on a replug as node
/// names do. It starts from the capture node's USB device, which keeps its directory when it comes
/// back on the same port.
#[derive(Debug)]
pub struct CardResolver {
    usb: NodePath,
}

/// The dongle's card.
#[derive(Debug)]
pub struct ResolvedCard {
    /// The ALSA name to open, such as `hw:8`.
    pub device: String,
    /// The card itself, for the log.
    pub card: SoundCard,
}

/// The dongle's card.
#[verifier::ext_equal]
pub ghost struct ResolvedCardView {
    pub device: Seq<char>,
    pub card: nodes::CardView,
}

impl View for ResolvedCard {
    type V = ResolvedCardView;

    open spec fn view(&self) -> ResolvedCardView {
        ResolvedCardView { device: self.device@, card: self.card@ }
    }
}

/// Whether the tree may be read as the search for a card does it: of all directories the sound
/// class alone is listed.
pub open spec fn may_find_card<S: Sysfs>(s: &S) -> bool {
    &&& s.may_read()
    &&& s.may_list(path::parsed(nodes::SOUND_CLASS@))
}

/// The card on the USB device in `usb`, or why there is none, as text.
pub open spec fn card_for<S: Sysfs>(s: &S, usb: path::Spelled) -> Result<ResolvedCardView, Seq<char>> {
    match topology::usb_at(s, usb) {
        None => Err(
            "the capture node's USB device "@ + usb.text
                + " is not present; the dongle is unplugged, or it came back on another port and this client would have to be restarted to follow it (video and input do follow it)"@,
        ),
        Some(device) => match nodes::audio_of(Some(device), nodes::cards_in(s)) {
            nodes::AudioView::Paired(card) => Ok(
                ResolvedCardView { device: nodes::alsa_name(card.name)->0, card },
            ),
            other => Err(other.words() + " ("@ + device.words() + ")"@),
        },
    }
}

/// A card that was found can always be opened by name.
proof fn lemma_paired_card_has_a_name<S: Sysfs>(s: &S, usb: topology::UsbView)
    ensures
        nodes::audio_of(Some(usb), nodes::cards_in(s)) matches nodes::AudioView::Paired(card)
            ==> nodes::alsa_name(card.name) is Some,
{
    if let nodes::AudioView::Paired(card) = nodes::audio_of(Some(usb), nodes::cards_in(s)) {
        nodes::audio_pairs_only_on_the_nodes_own_device(Some(usb), nodes::cards_in(s));
        let cards = nodes::cards_in(s);
        let i = choose|i: int| 0 <= i < cards.len() && cards[i] == card;
        nodes::every_card_has_a_number(s, s.entries(path::parsed(nodes::SOUND_CLASS@)), i);
    }
}

/// The card that is resolved is on the given USB device, and no other card is on it.
pub proof fn the_card_is_the_one_on_the_capture_device<S: Sysfs>(s: &S, usb: path::Spelled)
    ensures
        card_for(s, usb) matches Ok(found) ==> {
            &&& nodes::cards_in(s).contains(found.card)
            &&& found.card.usb is Some
            &&& topology::usb_at(s, usb) is Some
            &&& topology::is_same_device(topology::usb_at(s, usb)->0, found.card.usb->0)
            &&& nodes::alsa_name(found.card.name) == Some(found.device)
        },
{
    if let Some(device) = topology::usb_at(s, usb) {
        nodes::audio_pairs_only_on_the_nodes_own_device(Some(device), nodes::cards_in(s));
        lemma_paired_card_has_a_name(s, device);
    }
}

impl CardResolver {
    /// The directory of the capture node's USB device.
    pub closed spec fn device(&self) -> path::Spelled {
        self.usb.spelled()
    }

    pub fn new(usb: NodePath) -> (r: CardResolver)
        ensures
            r.device() == usb.spelled(),
    {
        CardResolver { usb }
    }

    /// The ALSA name to open now, or why there is none. The device is read again every time: after
    /// a replug the same port has a new device number. The sound class is the one directory that is
    /// listed.
    pub fn resolve<S: Sysfs>(&self, sysfs: &S) -> (r: Result<ResolvedCard, AudioError>)
        requires
            may_find_card(sysfs),
        ensures
            match card_for(sysfs, self.device()) {
                Ok(v) => r matches Ok(found) && found@ == v,
                Err(why) => r matches Err(AudioError::NoCard(s)) && s@ == why,
            },
    {
        let usb = match read_usb_device(sysfs, &self.usb) {
            Some(u) => u,
            None => {
                let mut s = "the capture node's USB device ".to_owned();
                s.append(self.usb.text());
                s.append(
                    " is not present; the dongle is unplugged, or it came back on another port and this client would have to be restarted to follow it (video and input do follow it)",
                );
                return Err(AudioError::NoCard(s));
            },
        };
        let cards = collect_sound_cards(sysfs);
        let device = Some(usb);
        let pairing = audio_for(&device, &cards);
        proof {
            lemma_paired_card_has_a_name(sysfs, usb@);
        }
        match pairing {
            AudioPairing::Paired(card) => {
                let device = card.alsa_device().unwrap();
                Ok(ResolvedCard { device, card })
            },
            other => {
                let mut s = other.text();
                s.append(" (");
                if let Some(u) = &device {
                    s.append(u.text().as_str());
                }
                s.append(")");
                Err(AudioError::NoCard(s))
            },
        }
    }
}

/// Which card to open, resolved before every opening.
pub struct DiscoveringCardOpener {
    resolver: CardResolver,
    /// The ALSA name that was last opened.
    last: Option<String>,
    /// Handed to every opening, so that a shutdown interrupts a call on the device that blocks.
    stop: Option<Arc<AtomicBool>>,
}

/// A card to open.
#[derive(Debug)]
pub struct CardTarget {
    pub device: String,
    pub notice: Notice,
}

/// One line per opening: which card was chosen.
pub open spec fn card_notice(found: ResolvedCardView, last: Option<Seq<char>>) -> Seq<char> {
    if last is Some && last->0 != found.device {
        "audio card moved: "@ + last->0 + " is now "@ + found.device + " ("@ + found.card.words()
            + ")"@
    } else {
        "audio card for this attempt: "@ + found.device + " ("@ + found.card.words() + ")"@
    }
}

impl DiscoveringCardOpener {
    /// The directory of the capture node's USB device.
    pub closed spec fn device(&self) -> path::Spelled {
        self.resolver.device()
    }

    /// The ALSA name that was last opened.
    pub closed spec fn last_opened(&self) -> Option<Seq<char>> {
        topology::text_of(self.last)
    }

    /// The flag that every opening is handed.
    pub closed spec fn flag(&self) -> Option<Arc<AtomicBool>> {
        self.stop
    }

    pub fn new(resolver: CardResolver) -> (r: DiscoveringCardOpener)
        ensures
            r.device() == resolver.device(),
            r.last_opened() is None,
            r.flag() is None,
    {
        DiscoveringCardOpener { resolver, last: None, stop: None }
    }

    /// Takes the flag that the next openings are handed.
    pub fn on_stop_flag(&mut self, stop: Arc<AtomicBool>)
        ensures
            final(self).device() == old(self).device(),
            final(self).last_opened() == old(self).last_opened(),
            final(self).flag() == Some(stop),
    {
        self.stop = Some(stop);
    }

    /// Whether `target` is the card that was found.
    pub open spec fn is_target(&self, target: CardTarget, found: ResolvedCardView) -> bool {
        &&& target.device@ == found.device
        &&& target.notice.moved == (self.last_opened() is Some && self.last_opened()->0
            != found.device)
        &&& target.notice.text@ == card_notice(found, self.last_opened())
    }

    /// The card to open now, or why there is none.
    fn target<S: Sysfs>(&self, sysfs: &S) -> (r: Result<CardTarget, AudioError>)
        requires
            may_find_card(sysfs),
        ensures
            match card_for(sysfs, self.device()) {
                Ok(found) => r matches Ok(t) && self.is_target(t, found),
                Err(why) => r matches Err(AudioError::NoCard(s)) && s@ == why,
            },
    {
        let found = match self.resolver.resolve(sysfs) {
            Ok(found) => found,
            Err(e) => {
                return Err(e);
            },
        };
        let mut text = String::new();
        let mut moved = false;
        if let Some(previous) = &self.last {
            if !text::same(previous.as_str(), found.device.as_str()) {
                moved = true;
                text.append("audio card moved: ");
                text.append(previous.as_str());
                text.append(" is now ");
            }
        }
        if !moved {
            text.append("audio card for this attempt: ");
        }
        text.append(found.device.as_str());
        text.append(" (");
        text.append(found.card.text().as_str());
        text.append(")");
        assert(text@ =~= card_notice(found@, self.last_opened()));
        Ok(CardTarget { device: found.device, notice: Notice { moved, text } })
    }

    /// Looks for the card as the tree is now, and opens it by calling `open` once, with the card
    /// and the flag. What `open` says is the answer.
    ///
    /// Without a card `open` is not called. A name that could not be opened is not noted: it would
    /// hide the move on the attempt that works.
    pub fn open<S: Sysfs, T, F: FnOnce(&CardTarget, Option<Arc<AtomicBool>>) -> Result<
        T,
        AudioError,
    >>(&mut self, sysfs: &S, open: F) -> (r: Result<T, AudioError>)
        requires
            may_find_card(sysfs),
            card_for(sysfs, old(self).device()) matches Ok(found) ==> forall|target: CardTarget|
                old(self).is_target(target, found) ==> #[trigger] open.requires(
                    (&target, old(self).flag()),
                ),
        ensures
            final(self).device() == old(self).device(),
            final(self).flag() == old(self).flag(),
            match card_for(sysfs, old(self).device()) {
                Ok(found) => {
                    &&& exists|target: CardTarget|
                        old(self).is_target(target, found) && #[trigger] open.ensures(
                            (&target, old(self).flag()),
                            r,
                        )
                    &&& final(self).last_opened() == if r is Ok {
                        Some(found.device)
                    } else {
                        old(self).last_opened()
                    }
                },
                Err(why) => {
                    &&& r matches Err(AudioError::NoCard(s))
                    &&& s@ == why
                    &&& final(self).last_opened() == old(self).last_opened()
                },
            },
    {
        let target = match self.target(sysfs) {
            Ok(target) => target,
            Err(e) => {
                return Err(e);
            },
        };
        let stop = match &self.stop {
            Some(flag) => Some(flag.clone()),
            None => None,
        };
        match open(&target, stop) {
            Ok(opened) => {
                self.last = Some(target.device);
                Ok(opened)
            },
            Err(e) => Err(e),
        }
    }

    /// What would be opened, in words.
    pub fn describe(&self) -> (s: String)
        ensures
            s@ == match self.last_opened() {
                Some(device) => "ALSA "@ + device
                    + " (the dongle's card, rediscovered on each open)"@,
                None =>
                    "ALSA — the card §8 discovery pairs with the capture node (rediscovered on each open)"@,
            },
    {
        match &self.last {
            Some(device) => {
                let mut s = "ALSA ".to_owned();
                s.append(device.as_str());
                s.append(" (the dongle's card, rediscovered on each open)");
                s
            },
            None =>
                "ALSA — the card §8 discovery pairs with the capture node (rediscovered on each open)".to_owned(),
        }
    }
}

} // verus!
