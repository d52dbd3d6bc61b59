//! Video nodes, serial nodes and sound cards, each with the USB device it belongs to.

use vstd::prelude::*;

use super::probe::{self, ProbeFailure};
use super::sysfs::Sysfs;
use super::topology::{
    self, copy_text, copy_usb, same_device, usb_device_of, Evidence, UsbDevice,
};
use crate::path::{self, NodePath};
use crate::text;

verus! {

/// The class directory of the video nodes.
pub const VIDEO_CLASS: &'static str = "/class/video4linux";

/// The class directory of the serial ports.
pub const TTY_CLASS: &'static str = "/class/tty";

/// The serial bridge is a CDC-ACM device. The other entries of its class are virtual consoles and
/// the like.
pub const TTY_PREFIX: &'static str = "ttyACM";

/// What the names of video nodes start with.
pub const VIDEO_PREFIX: &'static str = "video";

/// The class directory of the sound cards.
pub const SOUND_CLASS: &'static str = "/class/sound";

/// The sound class also holds controls, devices, a sequencer and a timer. Only `card<N>` is a
/// card, and the number in its name is the number of the card.
pub const CARD_PREFIX: &'static str = "card";

// ---- video nodes ---------------------------------------------------------------------------

/// A video node and the USB device it belongs to.
#[derive(Debug)]
pub struct VideoNode {
    /// The node, such as `/dev/video4`.
    pub dev: NodePath,
    /// Its USB device, or `None` for a path that was given and is not in the inventory.
    pub usb: Option<UsbDevice>,
    /// What the probe said; `None` when it was not asked or failed.
    pub is_capture: Option<bool>,
    /// Why the probe failed.
    pub probe_error: Option<ProbeFailure>,
    /// Whether the probe was asked at all.
    pub probed: bool,
}

/// A video node.
#[verifier::ext_equal]
pub ghost struct VideoView {
    pub dev: path::Spelled,
    pub usb: Option<topology::UsbView>,
    pub is_capture: Option<bool>,
    pub probe_error: Option<probe::FailureView>,
    pub probed: bool,
}

/// The failure of an optional one.
pub open spec fn failure_view(e: Option<ProbeFailure>) -> Option<probe::FailureView> {
    match e {
        Some(f) => Some(f@),
        None => None,
    }
}

impl View for VideoNode {
    type V = VideoView;

    open spec fn view(&self) -> VideoView {
        VideoView {
            dev: self.dev.spelled(),
            usb: topology::usb_view(self.usb),
            is_capture: self.is_capture,
            probe_error: failure_view(self.probe_error),
            probed: self.probed,
        }
    }
}

/// The nodes of a list.
pub open spec fn video_views(v: Seq<VideoNode>) -> Seq<VideoView> {
    Seq::new(v.len(), |i: int| v[i]@)
}

/// Whether some node on the device of `v` is known to capture.
pub open spec fn has_capture_sibling(v: VideoView, siblings: Seq<VideoView>) -> bool {
    exists|i: int|
        #![trigger siblings[i]]
        0 <= i < siblings.len() && siblings[i].is_capture == Some(true) && siblings[i].usb is Some
            && v.usb is Some && siblings[i].usb->0.sysfs.path == v.usb->0.sysfs.path
}

impl VideoView {
    /// Whether a node can be selected. Without an answer it can, unless a node on the same device
    /// is known to be the capture node.
    pub open spec fn eligible(self, siblings: Seq<VideoView>) -> bool {
        match self.is_capture {
            Some(b) => b,
            None => !has_capture_sibling(self, siblings),
        }
    }

    /// What is known of the node, as text.
    pub open spec fn capture_note(self) -> Seq<char> {
        match self.is_capture {
            Some(true) => "capture"@,
            Some(false) => "metadata (not a capture node)"@,
            None => if self.probe_error is Some {
                "capture status unknown (probe failed)"@
            } else if self.probed {
                "capture status unknown"@
            } else {
                "not probed (no topological pairing candidate)"@
            },
        }
    }
}

impl VideoNode {
    /// Whether the node can be selected.
    pub fn eligible(&self, siblings: &Vec<VideoNode>) -> (r: bool)
        ensures
            r == self@.eligible(video_views(siblings@)),
    {
        if let Some(b) = self.is_capture {
            return b;
        }
        let mut i: usize = 0;
        while i < siblings.len()
            invariant
                i <= siblings@.len(),
                self.is_capture is None,
                forall|k: int|
                    0 <= k < i ==> !((#[trigger] video_views(siblings@)[k]).is_capture == Some(true)
                        && video_views(siblings@)[k].usb is Some && self@.usb is Some
                        && video_views(siblings@)[k].usb->0.sysfs.path
                        == self@.usb->0.sysfs.path),
            decreases siblings@.len() - i,
        {
            let s = &siblings[i];
            assert(video_views(siblings@)[i as int] == s@);
            let confirmed = match s.is_capture {
                Some(b) => b,
                None => false,
            };
            if confirmed {
                if let (Some(a), Some(b)) = (&s.usb, &self.usb) {
                    if a.sysfs.same(&b.sysfs) {
                        return false;
                    }
                }
            }
            i = i + 1;
        }
        true
    }

    /// What is known of the node, as text.
    pub fn capture_note(&self) -> (s: &'static str)
        ensures
            s@ == self@.capture_note(),
    {
        match self.is_capture {
            Some(true) => "capture",
            Some(false) => "metadata (not a capture node)",
            None => if self.probe_error.is_some() {
                "capture status unknown (probe failed)"
            } else if self.probed {
                "capture status unknown"
            } else {
                "not probed (no topological pairing candidate)"
            },
        }
    }

    /// The same node once more.
    pub fn copy(&self) -> (r: VideoNode)
        ensures
            r@ == self@,
    {
        VideoNode {
            dev: self.dev.copy(),
            usb: copy_usb(&self.usb),
            is_capture: self.is_capture,
            probe_error: match &self.probe_error {
                Some(e) => Some(e.copy()),
                None => None,
            },
            probed: self.probed,
        }
    }
}

// ---- serial nodes --------------------------------------------------------------------------

/// A serial node and the USB device it belongs to.
#[derive(Debug)]
pub struct SerialNode {
    /// The node, such as `/dev/ttyACM1`.
    pub dev: NodePath,
    /// Its USB device, or `None` for a path that was given and is not in the inventory.
    pub usb: Option<UsbDevice>,
}

/// A serial node.
#[verifier::ext_equal]
pub ghost struct SerialView {
    pub dev: path::Spelled,
    pub usb: Option<topology::UsbView>,
}

impl View for SerialNode {
    type V = SerialView;

    open spec fn view(&self) -> SerialView {
        SerialView { dev: self.dev.spelled(), usb: topology::usb_view(self.usb) }
    }
}

/// The nodes of a list.
pub open spec fn serial_views(v: Seq<SerialNode>) -> Seq<SerialView> {
    Seq::new(v.len(), |i: int| v[i]@)
}

impl SerialNode {
    /// The same node once more.
    pub fn copy(&self) -> (r: SerialNode)
        ensures
            r@ == self@,
    {
        SerialNode { dev: self.dev.copy(), usb: copy_usb(&self.usb) }
    }
}

// ---- sound cards ---------------------------------------------------------------------------

/// A sound card and its USB device, where it has one.
#[derive(Debug)]
pub struct SoundCard {
    /// The card's directory.
    pub sysfs: NodePath,
    /// The kernel's name for it, such as `card8`.
    pub name: String,
    /// The card's ALSA id, such as `Video`. It is printed, and nothing pairs on it.
    pub id: Option<String>,
    /// The USB device of the card. `None` for a card that is no USB device.
    pub usb: Option<UsbDevice>,
}

/// A sound card.
#[verifier::ext_equal]
pub ghost struct CardView {
    pub sysfs: path::Spelled,
    pub name: Seq<char>,
    pub id: Option<Seq<char>>,
    pub usb: Option<topology::UsbView>,
}

impl View for SoundCard {
    type V = CardView;

    open spec fn view(&self) -> CardView {
        CardView {
            sysfs: self.sysfs.spelled(),
            name: self.name@,
            id: topology::text_of(self.id),
            usb: topology::usb_view(self.usb),
        }
    }
}

/// The cards of a list.
pub open spec fn card_views(v: Seq<SoundCard>) -> Seq<CardView> {
    Seq::new(v.len(), |i: int| v[i]@)
}

/// The number in the name of a card.
pub open spec fn card_number(name: Seq<char>) -> Option<nat> {
    if text::has_prefix(name, CARD_PREFIX@) {
        text::unsigned_value(name.skip(CARD_PREFIX@.len() as int), 10, 0xffff_ffff)
    } else {
        None
    }
}

/// The ALSA name of the first device of a card.
pub open spec fn alsa_name(name: Seq<char>) -> Option<Seq<char>> {
    match card_number(name) {
        Some(n) => Some("hw:"@ + text::decimal(n)),
        None => None,
    }
}

impl CardView {
    /// The card as text.
    pub open spec fn words(self) -> Seq<char> {
        self.name + match self.id {
            Some(id) => " \""@ + id + "\""@,
            None => seq![],
        } + match alsa_name(self.name) {
            Some(dev) => " ("@ + dev + ")"@,
            None => seq![],
        } + match self.usb {
            Some(u) => " on "@ + u.words(),
            None => " — not a USB device"@,
        }
    }
}

impl SoundCard {
    /// The number of the card, from its present name. After a replug another card can have it, so
    /// a card is looked up again before it is opened.
    pub fn number(&self) -> (r: Option<u32>)
        ensures
            match r {
                Some(n) => card_number(self@.name) == Some(n as nat),
                None => card_number(self@.name) is None,
            },
    {
        let rest = text::after_prefix(self.name.as_str(), CARD_PREFIX)?;
        text::parse_unsigned(rest.as_str(), 10, 0xffff_ffff)
    }

    /// The ALSA name of the first device, such as `hw:8`.
    pub fn alsa_device(&self) -> (r: Option<String>)
        ensures
            topology::text_of(r) == alsa_name(self@.name),
    {
        let n = self.number()?;
        let mut s = "hw:".to_owned();
        text::push_decimal(&mut s, n as u128);
        Some(s)
    }

    /// The card by its ALSA id, such as `hw:CARD=Video`. It survives a renumbering and is not
    /// unique, so it is printed and never opened.
    pub fn alsa_card_id(&self) -> (r: Option<String>)
        ensures
            topology::text_of(r) == match self@.id {
                Some(id) => Some("hw:CARD="@ + id),
                None => None,
            },
    {
        match &self.id {
            Some(id) => {
                let mut s = "hw:CARD=".to_owned();
                s.append(id.as_str());
                Some(s)
            },
            None => None,
        }
    }

    /// The card as text.
    pub fn text(&self) -> (s: String)
        ensures
            s@ == self@.words(),
    {
        let mut s = self.name.clone();
        if let Some(id) = &self.id {
            s.append(" \"");
            s.append(id.as_str());
            s.append("\"");
        }
        if let Some(dev) = self.alsa_device() {
            s.append(" (");
            s.append(dev.as_str());
            s.append(")");
        }
        match &self.usb {
            Some(u) => {
                s.append(" on ");
                s.append(u.text().as_str());
            },
            None => {
                s.append(" — not a USB device");
            },
        }
        assert(s@ =~= self@.words());
        s
    }

    /// The same card once more.
    pub fn copy(&self) -> (r: SoundCard)
        ensures
            r@ == self@,
    {
        SoundCard {
            sysfs: self.sysfs.copy(),
            name: self.name.clone(),
            id: copy_text(&self.id),
            usb: copy_usb(&self.usb),
        }
    }
}

/// The same cards once more.
pub fn copy_cards(cards: &Vec<SoundCard>) -> (r: Vec<SoundCard>)
    ensures
        card_views(r@) == card_views(cards@),
{
    let mut r: Vec<SoundCard> = Vec::new();
    let mut i: usize = 0;
    while i < cards.len()
        invariant
            i <= cards@.len(),
            card_views(r@) == card_views(cards@).take(i as int),
        decreases cards@.len() - i,
    {
        let ghost before = r@;
        r.push(cards[i].copy());
        assert(card_views(r@) =~= card_views(before).push(cards@[i as int]@));
        i = i + 1;
        assert(card_views(r@) =~= card_views(cards@).take(i as int));
    }
    assert(card_views(cards@).take(cards@.len() as int) =~= card_views(cards@));
    r
}

// ---- audio ---------------------------------------------------------------------------------

/// The sound card of a pair. Missing or ambiguous audio takes nothing from the pair.
#[derive(Debug)]
pub enum AudioPairing {
    /// Exactly one card is on the capture node's own USB device.
    Paired(SoundCard),
    /// No card is.
    NoCard,
    /// Several cards are; none is selected.
    Ambiguous(Vec<SoundCard>),
    /// The video node was given and is not in the inventory, so there is no USB device to compare
    /// a card with.
    Unknown,
}

/// The sound card of a pair.
#[verifier::ext_equal]
pub ghost enum AudioView {
    Paired(CardView),
    NoCard,
    Ambiguous(Seq<CardView>),
    Unknown,
}

impl View for AudioPairing {
    type V = AudioView;

    open spec fn view(&self) -> AudioView {
        match self {
            AudioPairing::Paired(c) => AudioView::Paired(c@),
            AudioPairing::NoCard => AudioView::NoCard,
            AudioPairing::Ambiguous(cards) => AudioView::Ambiguous(card_views(cards@)),
            AudioPairing::Unknown => AudioView::Unknown,
        }
    }
}

/// The names of cards, each with a space in front.
pub open spec fn card_names(cards: Seq<CardView>) -> Seq<char>
    decreases cards.len(),
{
    if cards.len() == 0 {
        seq![]
    } else {
        card_names(cards.drop_last()) + " "@ + cards.last().name
    }
}

impl AudioView {
    /// The pairing as text.
    pub open spec fn words(self) -> Seq<char> {
        match self {
            AudioView::Paired(card) => card.words()
                + " — same USB device as the capture node (busnum:devnum) — proof"@,
            AudioView::NoCard =>
                "no audio: no sound card belongs to the capture node's USB device"@,
            AudioView::Ambiguous(cards) => "no audio: "@ + text::decimal(cards.len())
                + " sound cards belong to the capture node's USB device, refusing to guess between"@
                + card_names(cards),
            AudioView::Unknown =>
                "no audio: the video node was given explicitly and discovery never enumerated it, so there is no USB device to match a sound card against"@,
        }
    }
}

impl AudioPairing {
    /// The card to open, if there is one.
    pub fn card(&self) -> (r: Option<&SoundCard>)
        ensures
            match r {
                Some(c) => self@ == AudioView::Paired(c@),
                None => !(self@ is Paired),
            },
    {
        match self {
            AudioPairing::Paired(c) => Some(c),
            _ => None,
        }
    }

    /// The pairing as text.
    pub fn text(&self) -> (s: String)
        ensures
            s@ == self@.words(),
    {
        match self {
            AudioPairing::Paired(card) => {
                let mut s = card.text();
                s.append(" — same USB device as the capture node (busnum:devnum) — proof");
                s
            },
            AudioPairing::NoCard =>
                "no audio: no sound card belongs to the capture node's USB device".to_owned(),
            AudioPairing::Ambiguous(cards) => {
                let mut s = "no audio: ".to_owned();
                text::push_decimal(&mut s, cards.len() as u128);
                s.append(
                    " sound cards belong to the capture node's USB device, refusing to guess between",
                );
                let ghost head = s@;
                let mut i: usize = 0;
                assert(card_views(cards@).take(0) =~= seq![]);
                while i < cards.len()
                    invariant
                        i <= cards@.len(),
                        s@ == head + card_names(card_views(cards@).take(i as int)),
                    decreases cards@.len() - i,
                {
                    s.append(" ");
                    s.append(cards[i].name.as_str());
                    i = i + 1;
                    proof {
                        let shown = card_views(cards@).take(i as int);
                        assert(shown.drop_last() =~= card_views(cards@).take(i - 1));
                        assert(s@ =~= head + card_names(shown));
                    }
                }
                assert(card_views(cards@).take(cards@.len() as int) =~= card_views(cards@));
                s
            },
            AudioPairing::Unknown =>
                "no audio: the video node was given explicitly and discovery never enumerated it, so there is no USB device to match a sound card against".to_owned(),
        }
    }

    /// The same pairing once more.
    pub fn copy(&self) -> (r: AudioPairing)
        ensures
            r@ == self@,
    {
        match self {
            AudioPairing::Paired(c) => AudioPairing::Paired(c.copy()),
            AudioPairing::NoCard => AudioPairing::NoCard,
            AudioPairing::Ambiguous(cards) => AudioPairing::Ambiguous(copy_cards(cards)),
            AudioPairing::Unknown => AudioPairing::Unknown,
        }
    }
}

/// The cards on one USB device, in their order.
pub open spec fn cards_on(video: topology::UsbView, cards: Seq<CardView>) -> Seq<CardView>
    decreases cards.len(),
{
    if cards.len() == 0 {
        seq![]
    } else {
        let rest = cards_on(video, cards.drop_last());
        match cards.last().usb {
            Some(u) => if topology::is_same_device(video, u) {
                rest.push(cards.last())
            } else {
                rest
            },
            None => rest,
        }
    }
}

/// The card of a video node: the one card on the node's own USB device. A card on another port of
/// the same hub is not it.
pub open spec fn audio_of(video: Option<topology::UsbView>, cards: Seq<CardView>) -> AudioView {
    match video {
        None => AudioView::Unknown,
        Some(u) => {
            let matched = cards_on(u, cards);
            if matched.len() == 0 {
                AudioView::NoCard
            } else if matched.len() == 1 {
                AudioView::Paired(matched[0])
            } else {
                AudioView::Ambiguous(matched)
            }
        },
    }
}

pub(crate) proof fn lemma_cards_on(video: topology::UsbView, cards: Seq<CardView>, k: int)
    requires
        0 <= k < cards_on(video, cards).len(),
    ensures
        cards.contains(cards_on(video, cards)[k]),
        cards_on(video, cards)[k].usb is Some,
        topology::is_same_device(video, cards_on(video, cards)[k].usb->0),
    decreases cards.len(),
{
    let rest = cards_on(video, cards.drop_last());
    if k < rest.len() {
        lemma_cards_on(video, cards.drop_last(), k);
        let i = choose|i: int| 0 <= i < cards.len() - 1 && cards.drop_last()[i] == rest[k];
        assert(cards[i] == rest[k]);
    } else {
        assert(cards[cards.len() - 1] == cards.last());
    }
}

pub(crate) proof fn lemma_cards_on_all(video: topology::UsbView, cards: Seq<CardView>, i: int)
    requires
        0 <= i < cards.len(),
        cards[i].usb is Some,
        topology::is_same_device(video, cards[i].usb->0),
    ensures
        cards_on(video, cards).contains(cards[i]),
    decreases cards.len(),
{
    let rest = cards_on(video, cards.drop_last());
    if i == cards.len() - 1 {
        assert(cards_on(video, cards).last() == cards[i]);
    } else {
        lemma_cards_on_all(video, cards.drop_last(), i);
        let k = choose|k: int| 0 <= k < rest.len() && rest[k] == cards.drop_last()[i];
        assert(cards_on(video, cards)[k] == cards[i]);
    }
}

/// A card pairs with a video node only where it is on the node's own USB device, and where no
/// other card is.
pub proof fn audio_pairs_only_on_the_nodes_own_device(
    video: Option<topology::UsbView>,
    cards: Seq<CardView>,
)
    ensures
        audio_of(video, cards) matches AudioView::Paired(card) ==> {
            &&& video is Some
            &&& cards.contains(card)
            &&& card.usb is Some
            &&& topology::is_same_device(video->0, card.usb->0)
            &&& forall|i: int|
                0 <= i < cards.len() && (#[trigger] cards[i]).usb is Some
                    && topology::is_same_device(video->0, cards[i].usb->0) ==> cards[i] == card
        },
{
    if let AudioView::Paired(card) = audio_of(video, cards) {
        lemma_cards_on(video->0, cards, 0);
        assert forall|i: int|
            0 <= i < cards.len() && (#[trigger] cards[i]).usb is Some && topology::is_same_device(
                video->0,
                cards[i].usb->0,
            ) implies cards[i] == card by {
            lemma_cards_on_all(video->0, cards, i);
        }
    }
}

/// The card of a video node.
pub fn audio_for(video: &Option<UsbDevice>, cards: &Vec<SoundCard>) -> (r: AudioPairing)
    ensures
        r@ == audio_of(topology::usb_view(*video), card_views(cards@)),
{
    let video = match video {
        Some(u) => u,
        None => {
            return AudioPairing::Unknown;
        },
    };
    let mut matched: Vec<SoundCard> = Vec::new();
    let mut i: usize = 0;
    assert(card_views(cards@).take(0) =~= seq![]);
    assert(card_views(matched@) =~= seq![]);
    while i < cards.len()
        invariant
            i <= cards@.len(),
            card_views(matched@) == cards_on(video@, card_views(cards@).take(i as int)),
        decreases cards@.len() - i,
    {
        proof {
            let seen = card_views(cards@).take(i + 1);
            assert(seen.drop_last() =~= card_views(cards@).take(i as int));
            assert(seen.last() == cards@[i as int]@);
        }
        let ghost before = matched@;
        if let Some(u) = &cards[i].usb {
            if same_device(video, u) {
                matched.push(cards[i].copy());
                assert(card_views(matched@) =~= card_views(before).push(cards@[i as int]@));
            }
        }
        i = i + 1;
    }
    assert(card_views(cards@).take(cards@.len() as int) =~= card_views(cards@));
    assert(card_views(matched@).len() == matched@.len());
    if matched.len() == 0 {
        AudioPairing::NoCard
    } else if matched.len() == 1 {
        assert(card_views(matched@)[0] == matched@[0]@);
        AudioPairing::Paired(matched[0].copy())
    } else {
        AudioPairing::Ambiguous(matched)
    }
}

// ---- pairs ---------------------------------------------------------------------------------

/// A video node and a serial node, with the evidence that joins them.
///
/// Paths that were both given are taken even where no rule connects them; then there is no
/// evidence.
#[derive(Debug)]
pub struct Pair {
    pub video: VideoNode,
    pub serial: SerialNode,
    pub evidence: Option<Evidence>,
    /// The sound card on the capture node's own USB device.
    pub audio: AudioPairing,
}

/// A video node and a serial node.
#[verifier::ext_equal]
pub ghost struct PairView {
    pub video: VideoView,
    pub serial: SerialView,
    pub evidence: Option<topology::EvidenceView>,
    pub audio: AudioView,
}

impl View for Pair {
    type V = PairView;

    open spec fn view(&self) -> PairView {
        PairView {
            video: self.video@,
            serial: self.serial@,
            evidence: topology::evidence_view(self.evidence),
            audio: self.audio@,
        }
    }
}

/// The pairs of a list.
pub open spec fn pair_views(v: Seq<Pair>) -> Seq<PairView> {
    Seq::new(v.len(), |i: int| v[i]@)
}

impl PairView {
    /// The pair as text, in two lines.
    pub open spec fn words(self) -> Seq<char> {
        self.video.dev.text + " + "@ + self.serial.dev.text + " — "@ + match self.evidence {
            Some(e) => e.words(),
            None => "no evidence (both nodes given explicitly)"@,
        } + "\n      audio: "@ + self.audio.words()
    }
}

impl Pair {
    /// The pair as text, in two lines.
    pub fn text(&self) -> (s: String)
        ensures
            s@ == self@.words(),
    {
        let mut s = self.video.dev.text().to_owned();
        s.append(" + ");
        s.append(self.serial.dev.text());
        s.append(" — ");
        match &self.evidence {
            Some(e) => s.append(e.text().as_str()),
            None => s.append("no evidence (both nodes given explicitly)"),
        }
        s.append("\n      audio: ");
        s.append(self.audio.text().as_str());
        s
    }

    /// The same pair once more.
    pub fn copy(&self) -> (r: Pair)
        ensures
            r@ == self@,
    {
        Pair {
            video: self.video.copy(),
            serial: self.serial.copy(),
            evidence: match &self.evidence {
                Some(e) => Some(e.copy()),
                None => None,
            },
            audio: self.audio.copy(),
        }
    }
}

// ---- collection ----------------------------------------------------------------------------

/// The device node of a class entry.
pub open spec fn dev_node(name: Seq<char>) -> path::Spelled {
    let p = path::parsed("/dev"@).child(name);
    path::Spelled { path: p, text: p.text() }
}

/// The entries whose names start with `prefix` and which belong to a USB device. The others
/// cannot be part of the dongle.
pub open spec fn class_nodes<S: Sysfs>(s: &S, entries: Seq<path::Spelled>, prefix: Seq<char>) -> Seq<
    (path::Spelled, topology::UsbView),
>
    decreases entries.len(),
{
    if entries.len() == 0 {
        seq![]
    } else {
        let rest = class_nodes(s, entries.drop_last(), prefix);
        match (entries.last().path.file_name(), topology::usb_of(s, entries.last().path)) {
            (Some(name), Some(usb)) => if text::has_prefix(name, prefix) {
                rest.push((dev_node(name), usb))
            } else {
                rest
            },
            _ => rest,
        }
    }
}

/// A node of a class: its path and its USB device.
pub open spec fn found_views(v: Seq<(NodePath, UsbDevice)>) -> Seq<
    (path::Spelled, topology::UsbView),
> {
    Seq::new(v.len(), |i: int| (v[i].0.spelled(), v[i].1@))
}

/// One entry of a class directory, where it is a node of a USB device.
fn class_node<S: Sysfs>(sysfs: &S, entry: &NodePath, prefix: &str) -> (r: Option<
    (NodePath, UsbDevice),
>)
    requires
        sysfs.may_read(),
    ensures
        match r {
            Some(f) => entry@.file_name() matches Some(name) && text::has_prefix(name, prefix@)
                && topology::usb_of(sysfs, entry@) == Some(f.1@) && f.0.spelled() == dev_node(name),
            None => entry@.file_name() is None || !text::has_prefix(entry@.file_name()->0, prefix@)
                || topology::usb_of(sysfs, entry@) is None,
        },
{
    let name = entry.file_name()?;
    if text::after_prefix(name.as_str(), prefix).is_none() {
        return None;
    }
    let usb = usb_device_of(sysfs, entry)?;
    Some((NodePath::new("/dev").child(name.as_str()), usb))
}

fn find_class_nodes<S: Sysfs>(sysfs: &S, class: &str, prefix: &str) -> (r: Vec<
    (NodePath, UsbDevice),
>)
    requires
        sysfs.may_read(),
        sysfs.may_list(path::parsed(class@)),
    ensures
        found_views(r@) == class_nodes(sysfs, sysfs.entries(path::parsed(class@)), prefix@),
{
    let entries = sysfs.list_dir(&NodePath::new(class));
    let ghost all = sysfs.entries(path::parsed(class@));
    let mut r: Vec<(NodePath, UsbDevice)> = Vec::new();
    let mut i: usize = 0;
    assert(all.take(0) =~= seq![]);
    assert(found_views(r@) =~= seq![]);
    while i < entries.len()
        invariant
            i <= entries@.len(),
            sysfs.may_read(),
            all == path::spellings(entries@),
            found_views(r@) == class_nodes(sysfs, all.take(i as int), prefix@),
        decreases entries@.len() - i,
    {
        proof {
            assert(all.take(i + 1).drop_last() =~= all.take(i as int));
            assert(all.take(i + 1).last() == entries@[i as int].spelled());
        }
        let ghost before = r@;
        if let Some(f) = class_node(sysfs, &entries[i], prefix) {
            r.push(f);
            assert(found_views(r@) =~= found_views(before).push((f.0.spelled(), f.1@)));
        }
        i = i + 1;
    }
    assert(all.take(all.len() as int) =~= all);
    r
}

/// The video nodes of USB devices, before any probe.
pub open spec fn videos_in<S: Sysfs>(s: &S) -> Seq<VideoView> {
    let found = class_nodes(s, s.entries(path::parsed(VIDEO_CLASS@)), VIDEO_PREFIX@);
    Seq::new(
        found.len(),
        |i: int|
            VideoView {
                dev: found[i].0,
                usb: Some(found[i].1),
                is_capture: None,
                probe_error: None,
                probed: false,
            },
    )
}

/// Collects the video nodes.
pub fn collect_video_nodes<S: Sysfs>(sysfs: &S) -> (r: Vec<VideoNode>)
    requires
        sysfs.may_read(),
        sysfs.may_list(path::parsed(VIDEO_CLASS@)),
    ensures
        video_views(r@) == videos_in(sysfs),
{
    let found = find_class_nodes(sysfs, VIDEO_CLASS, VIDEO_PREFIX);
    let mut r: Vec<VideoNode> = Vec::new();
    let mut i: usize = 0;
    while i < found.len()
        invariant
            i <= found@.len(),
            found_views(found@) == class_nodes(
                sysfs,
                sysfs.entries(path::parsed(VIDEO_CLASS@)),
                VIDEO_PREFIX@,
            ),
            video_views(r@) == videos_in(sysfs).take(i as int),
        decreases found@.len() - i,
    {
        let ghost before = r@;
        let node = VideoNode {
            dev: found[i].0.copy(),
            usb: Some(found[i].1.copy()),
            is_capture: None,
            probe_error: None,
            probed: false,
        };
        proof {
            assert(found_views(found@)[i as int] == (
                found@[i as int].0.spelled(),
                found@[i as int].1@,
            ));
            assert(node@ =~= videos_in(sysfs)[i as int]);
        }
        r.push(node);
        i = i + 1;
        assert(video_views(r@) =~= video_views(before).push(node@));
        assert(video_views(r@) =~= videos_in(sysfs).take(i as int));
    }
    assert(found_views(found@).len() == found@.len());
    assert(videos_in(sysfs).take(found@.len() as int) =~= videos_in(sysfs));
    r
}

/// The serial nodes of USB devices.
pub open spec fn serials_in<S: Sysfs>(s: &S) -> Seq<SerialView> {
    let found = class_nodes(s, s.entries(path::parsed(TTY_CLASS@)), TTY_PREFIX@);
    Seq::new(found.len(), |i: int| SerialView { dev: found[i].0, usb: Some(found[i].1) })
}

/// Collects the serial nodes.
pub fn collect_serial_nodes<S: Sysfs>(sysfs: &S) -> (r: Vec<SerialNode>)
    requires
        sysfs.may_read(),
        sysfs.may_list(path::parsed(TTY_CLASS@)),
    ensures
        serial_views(r@) == serials_in(sysfs),
{
    let found = find_class_nodes(sysfs, TTY_CLASS, TTY_PREFIX);
    let mut r: Vec<SerialNode> = Vec::new();
    let mut i: usize = 0;
    while i < found.len()
        invariant
            i <= found@.len(),
            found_views(found@) == class_nodes(
                sysfs,
                sysfs.entries(path::parsed(TTY_CLASS@)),
                TTY_PREFIX@,
            ),
            serial_views(r@) == serials_in(sysfs).take(i as int),
        decreases found@.len() - i,
    {
        let ghost before = r@;
        let node = SerialNode { dev: found[i].0.copy(), usb: Some(found[i].1.copy()) };
        proof {
            assert(found_views(found@)[i as int] == (
                found@[i as int].0.spelled(),
                found@[i as int].1@,
            ));
            assert(node@ =~= serials_in(sysfs)[i as int]);
        }
        r.push(node);
        i = i + 1;
        assert(serial_views(r@) =~= serial_views(before).push(node@));
        assert(serial_views(r@) =~= serials_in(sysfs).take(i as int));
    }
    assert(found_views(found@).len() == found@.len());
    assert(serials_in(sysfs).take(found@.len() as int) =~= serials_in(sysfs));
    r
}

/// One entry of the sound class, where its name is that of a card.
pub open spec fn card_at<S: Sysfs>(s: &S, entry: path::Spelled) -> Option<CardView> {
    match entry.path.file_name() {
        Some(name) => if card_number(name) is Some {
            Some(
                CardView {
                    sysfs: match s.link(entry.path) {
                        Some(p) => p,
                        None => entry,
                    },
                    name,
                    id: s.attr(entry.path, "id"@),
                    usb: topology::usb_of(s, entry.path),
                },
            )
        } else {
            None
        },
        None => None,
    }
}

/// The cards among some entries of the sound class, USB or not.
pub open spec fn cards_among<S: Sysfs>(s: &S, entries: Seq<path::Spelled>) -> Seq<CardView>
    decreases entries.len(),
{
    if entries.len() == 0 {
        seq![]
    } else {
        let rest = cards_among(s, entries.drop_last());
        match card_at(s, entries.last()) {
            Some(card) => rest.push(card),
            None => rest,
        }
    }
}

/// All sound cards.
pub open spec fn cards_in<S: Sysfs>(s: &S) -> Seq<CardView> {
    cards_among(s, s.entries(path::parsed(SOUND_CLASS@)))
}

/// Every card among the entries has a number, so each of them can be opened by name.
pub proof fn every_card_has_a_number<S: Sysfs>(s: &S, entries: Seq<path::Spelled>, i: int)
    requires
        0 <= i < cards_among(s, entries).len(),
    ensures
        card_number(cards_among(s, entries)[i].name) is Some,
        alsa_name(cards_among(s, entries)[i].name) is Some,
    decreases entries.len(),
{
    if i < cards_among(s, entries.drop_last()).len() {
        every_card_has_a_number(s, entries.drop_last(), i);
    }
}

fn sound_card<S: Sysfs>(sysfs: &S, entry: &NodePath) -> (r: Option<SoundCard>)
    requires
        sysfs.may_read(),
    ensures
        match r {
            Some(c) => card_at(sysfs, entry.spelled()) == Some(c@),
            None => card_at(sysfs, entry.spelled()) is None,
        },
{
    let name = entry.file_name()?;
    let dir = match sysfs.read_link(entry) {
        Some(p) => p,
        None => entry.copy(),
    };
    let card = SoundCard {
        sysfs: dir,
        name,
        id: sysfs.read_attr(entry, "id"),
        usb: usb_device_of(sysfs, entry),
    };
    if card.number().is_some() {
        assert(card@ =~= card_at(sysfs, entry.spelled())->0);
        Some(card)
    } else {
        None
    }
}

/// Collects the sound cards, USB or not: a card that is no USB device explains why it did not
/// pair.
pub fn collect_sound_cards<S: Sysfs>(sysfs: &S) -> (r: Vec<SoundCard>)
    requires
        sysfs.may_read(),
        sysfs.may_list(path::parsed(SOUND_CLASS@)),
    ensures
        card_views(r@) == cards_in(sysfs),
{
    let entries = sysfs.list_dir(&NodePath::new(SOUND_CLASS));
    let ghost all = sysfs.entries(path::parsed(SOUND_CLASS@));
    let mut r: Vec<SoundCard> = Vec::new();
    let mut i: usize = 0;
    assert(all.take(0) =~= seq![]);
    assert(card_views(r@) =~= seq![]);
    while i < entries.len()
        invariant
            i <= entries@.len(),
            sysfs.may_read(),
            all == path::spellings(entries@),
            card_views(r@) == cards_among(sysfs, all.take(i as int)),
        decreases entries@.len() - i,
    {
        proof {
            assert(all.take(i + 1).drop_last() =~= all.take(i as int));
            assert(all.take(i + 1).last() == entries@[i as int].spelled());
        }
        let ghost before = r@;
        if let Some(card) = sound_card(sysfs, &entries[i]) {
            r.push(card);
            assert(card_views(r@) =~= card_views(before).push(card@));
        }
        i = i + 1;
    }
    assert(all.take(all.len() as int) =~= all);
    r
}

} // verus!
