//! What discovery found and why it stopped, as text.
//!
//! Every report names every node and every id, because what is left to do is to pick two nodes and
//! give their paths.

use vstd::prelude::*;

use super::topology::UsbDevice;
use super::{nodes, topology};
use super::{Constraints, DiscoveryError, Inventory, NodeKind, VideoNode};
use crate::path::{self, NodePath};
use crate::text;

verus! {

/// A node's USB device, or a stand-in for a node that discovery did not find.
pub open spec fn device_words(usb: Option<topology::UsbView>) -> Seq<char> {
    match usb {
        Some(u) => u.words(),
        None => "(not enumerated by discovery)"@,
    }
}

fn describe(usb: &Option<UsbDevice>) -> (s: String)
    ensures
        s@ == device_words(topology::usb_view(*usb)),
{
    match usb {
        Some(u) => u.text(),
        None => "(not enumerated by discovery)".to_owned(),
    }
}

/// An arrow in front of a node that was given, and spaces in front of the others.
pub open spec fn mark_words(chosen: Option<path::Spelled>, dev: path::PathView) -> Seq<char> {
    if chosen is Some && chosen->0.path == dev {
        "->"@
    } else {
        "  "@
    }
}

/// The line of a video node, and a second one where its probe failed.
pub open spec fn video_line(v: nodes::VideoView, chosen: Option<path::Spelled>) -> Seq<char> {
    mark_words(chosen, v.dev.path) + " "@ + v.dev.text + " "@ + device_words(v.usb) + " — "@
        + v.capture_note() + "\n"@ + match v.probe_error {
        Some(e) => "      probe failed: "@ + e.message + "\n"@,
        None => seq![],
    }
}

/// The line of a serial node.
pub open spec fn serial_line(v: nodes::SerialView, chosen: Option<path::Spelled>) -> Seq<char> {
    mark_words(chosen, v.dev.path) + " "@ + v.dev.text + " "@ + device_words(v.usb) + "\n"@
}

/// The line of a sound card.
pub open spec fn card_line(c: nodes::CardView) -> Seq<char> {
    "   "@ + c.words() + "\n"@
}

/// An arrow in front of a pair that has every path that was given.
pub open spec fn pair_mark(p: nodes::PairView, c: super::ConstraintsView) -> Seq<char> {
    if (c.video is Some || c.serial is Some) && super::agrees(p, c) {
        "->"@
    } else {
        "  "@
    }
}

/// The lines of a pair.
pub open spec fn pair_line(p: nodes::PairView, c: super::ConstraintsView) -> Seq<char> {
    pair_mark(p, c) + " "@ + p.words() + "\n"@
}

pub open spec fn video_lines(v: Seq<nodes::VideoView>, chosen: Option<path::Spelled>) -> Seq<char>
    decreases v.len(),
{
    if v.len() == 0 {
        seq![]
    } else {
        video_lines(v.drop_last(), chosen) + video_line(v.last(), chosen)
    }
}

pub open spec fn serial_lines(v: Seq<nodes::SerialView>, chosen: Option<path::Spelled>) -> Seq<char>
    decreases v.len(),
{
    if v.len() == 0 {
        seq![]
    } else {
        serial_lines(v.drop_last(), chosen) + serial_line(v.last(), chosen)
    }
}

pub open spec fn card_lines(v: Seq<nodes::CardView>) -> Seq<char>
    decreases v.len(),
{
    if v.len() == 0 {
        seq![]
    } else {
        card_lines(v.drop_last()) + card_line(v.last())
    }
}

pub open spec fn pair_lines(v: Seq<nodes::PairView>, c: super::ConstraintsView) -> Seq<char>
    decreases v.len(),
{
    if v.len() == 0 {
        seq![]
    } else {
        pair_lines(v.drop_last(), c) + pair_line(v.last(), c)
    }
}

/// What stands under a heading with nothing below it.
pub open spec fn none_line(n: nat) -> Seq<char> {
    if n == 0 {
        "  (none)\n"@
    } else {
        seq![]
    }
}

/// A path that was given and that discovery did not find.
pub open spec fn unknown_note(kind: NodeKind, chosen: Option<path::Spelled>, known: bool) -> Seq<
    char,
> {
    match chosen {
        Some(p) => if known {
            seq![]
        } else {
            "note: "@ + kind.flag_words() + " "@ + p.text
                + " is not a node discovery enumerated; it will still be used as given.\n"@
        },
        None => seq![],
    }
}

/// What two given paths select.
pub open spec fn selection_note(c: super::ConstraintsView) -> Seq<char> {
    match (c.video, c.serial) {
        (Some(v), Some(t)) => "selection: "@ + v.text + " + "@ + t.text
            + " — both given explicitly, so discovery is not consulted.\n"@,
        _ => seq![],
    }
}

/// An inventory as text, with the paths that were given marked.
pub open spec fn listing_words(inv: super::InventoryView, c: super::ConstraintsView) -> Seq<char> {
    "video nodes:\n"@ + none_line(inv.videos.len()) + video_lines(inv.videos, c.video)
        + "serial nodes:\n"@ + none_line(inv.serials.len()) + serial_lines(inv.serials, c.serial)
        + "sound cards:\n"@ + none_line(inv.cards.len()) + card_lines(inv.cards) + "pairs:\n"@
        + none_line(inv.pairs.len()) + pair_lines(inv.pairs, c) + unknown_note(
        NodeKind::Video,
        c.video,
        c.video is Some && super::find_video_in(inv.videos, c.video->0.path) is Some,
    ) + unknown_note(
        NodeKind::Serial,
        c.serial,
        c.serial is Some && super::find_serial_in(inv.serials, c.serial->0.path) is Some,
    ) + selection_note(c)
}

/// An inventory as text, with no path given.
pub open spec fn inventory_words(inv: super::InventoryView) -> Seq<char> {
    listing_words(inv, super::ConstraintsView { video: None, serial: None })
}

/// An [`Inventory`] to be printed with the given paths. See [`Inventory::listing`].
pub struct Listing<'a> {
    inventory: &'a Inventory,
    constraints: &'a Constraints,
}

/// Whether a path was given and is this one.
fn is_chosen(chosen: &Option<NodePath>, dev: &NodePath) -> (r: bool)
    ensures
        r == (chosen is Some && chosen->0@ == dev@),
{
    match chosen {
        Some(p) => p.same(dev),
        None => false,
    }
}

fn mark(chosen: &Option<NodePath>, dev: &NodePath) -> (s: &'static str)
    ensures
        s@ == mark_words(super::spelled(*chosen), dev@),
{
    if is_chosen(chosen, dev) {
        "->"
    } else {
        "  "
    }
}

fn push_none(s: &mut String, n: usize)
    ensures
        final(s)@ == old(s)@ + none_line(n as nat),
{
    if n == 0 {
        s.append("  (none)\n");
    }
    assert(s@ =~= old(s)@ + none_line(n as nat));
}

fn push_unknown(s: &mut String, kind: NodeKind, chosen: &Option<NodePath>, known: bool)
    ensures
        final(s)@ == old(s)@ + unknown_note(kind, super::spelled(*chosen), known),
{
    if let Some(p) = chosen {
        if !known {
            s.append("note: ");
            s.append(kind.flag());
            s.append(" ");
            s.append(p.text());
            s.append(" is not a node discovery enumerated; it will still be used as given.\n");
        }
    }
    assert(s@ =~= old(s)@ + unknown_note(kind, super::spelled(*chosen), known));
}

fn push_video(s: &mut String, v: &VideoNode, chosen: &Option<NodePath>)
    ensures
        final(s)@ == old(s)@ + video_line(v@, super::spelled(*chosen)),
{
    s.append(mark(chosen, &v.dev));
    s.append(" ");
    s.append(v.dev.text());
    s.append(" ");
    s.append(describe(&v.usb).as_str());
    s.append(" — ");
    s.append(v.capture_note());
    s.append("\n");
    if let Some(e) = &v.probe_error {
        s.append("      probe failed: ");
        s.append(e.message.as_str());
        s.append("\n");
    }
    assert(s@ =~= old(s)@ + video_line(v@, super::spelled(*chosen)));
}

impl<'a> Listing<'a> {
    /// What is printed.
    pub closed spec fn words(&self) -> Seq<char> {
        listing_words(self.inventory@, self.constraints@)
    }

    fn push_videos(&self, s: &mut String)
        ensures
            final(s)@ == old(s)@ + video_lines(self.inventory@.videos, self.constraints@.video),
    {
        let videos = &self.inventory.videos;
        let chosen = &self.constraints.video;
        let ghost all = self.inventory@.videos;
        let ghost c = self.constraints@.video;
        let mut i: usize = 0;
        assert(all.take(0) =~= seq![]);
        assert(s@ =~= old(s)@ + video_lines(all.take(0), c));
        while i < videos.len()
            invariant
                i <= videos@.len(),
                all == nodes::video_views(videos@),
                c == super::spelled(*chosen),
                s@ == old(s)@ + video_lines(all.take(i as int), c),
            decreases videos@.len() - i,
        {
            let v = &videos[i];
            proof {
                assert(all.take(i + 1).drop_last() =~= all.take(i as int));
                assert(all.take(i + 1).last() == v@);
            }
            push_video(s, v, chosen);
            i = i + 1;
            assert(s@ =~= old(s)@ + video_lines(all.take(i as int), c));
        }
        assert(all.take(all.len() as int) =~= all);
    }

    fn push_serials(&self, s: &mut String)
        ensures
            final(s)@ == old(s)@ + serial_lines(self.inventory@.serials, self.constraints@.serial),
    {
        let serials = &self.inventory.serials;
        let chosen = &self.constraints.serial;
        let ghost all = self.inventory@.serials;
        let ghost c = self.constraints@.serial;
        let mut i: usize = 0;
        assert(all.take(0) =~= seq![]);
        assert(s@ =~= old(s)@ + serial_lines(all.take(0), c));
        while i < serials.len()
            invariant
                i <= serials@.len(),
                all == nodes::serial_views(serials@),
                c == super::spelled(*chosen),
                s@ == old(s)@ + serial_lines(all.take(i as int), c),
            decreases serials@.len() - i,
        {
            let v = &serials[i];
            proof {
                assert(all.take(i + 1).drop_last() =~= all.take(i as int));
                assert(all.take(i + 1).last() == v@);
            }
            s.append(mark(chosen, &v.dev));
            s.append(" ");
            s.append(v.dev.text());
            s.append(" ");
            s.append(describe(&v.usb).as_str());
            s.append("\n");
            i = i + 1;
            assert(s@ =~= old(s)@ + serial_lines(all.take(i as int), c));
        }
        assert(all.take(all.len() as int) =~= all);
    }

    fn push_cards(&self, s: &mut String)
        ensures
            final(s)@ == old(s)@ + card_lines(self.inventory@.cards),
    {
        let cards = &self.inventory.cards;
        let ghost all = self.inventory@.cards;
        let mut i: usize = 0;
        assert(all.take(0) =~= seq![]);
        assert(s@ =~= old(s)@ + card_lines(all.take(0)));
        while i < cards.len()
            invariant
                i <= cards@.len(),
                all == nodes::card_views(cards@),
                s@ == old(s)@ + card_lines(all.take(i as int)),
            decreases cards@.len() - i,
        {
            proof {
                assert(all.take(i + 1).drop_last() =~= all.take(i as int));
                assert(all.take(i + 1).last() == cards@[i as int]@);
            }
            s.append("   ");
            s.append(cards[i].text().as_str());
            s.append("\n");
            i = i + 1;
            assert(s@ =~= old(s)@ + card_lines(all.take(i as int)));
        }
        assert(all.take(all.len() as int) =~= all);
    }

    fn push_pairs(&self, s: &mut String)
        ensures
            final(s)@ == old(s)@ + pair_lines(self.inventory@.pairs, self.constraints@),
    {
        let pairs = &self.inventory.pairs;
        let chosen = self.constraints;
        let ghost all = self.inventory@.pairs;
        let ghost c = self.constraints@;
        let mut i: usize = 0;
        assert(all.take(0) =~= seq![]);
        assert(s@ =~= old(s)@ + pair_lines(all.take(0), c));
        while i < pairs.len()
            invariant
                i <= pairs@.len(),
                all == nodes::pair_views(pairs@),
                c == chosen@,
                s@ == old(s)@ + pair_lines(all.take(i as int), c),
            decreases pairs@.len() - i,
        {
            let p = &pairs[i];
            proof {
                assert(all.take(i + 1).drop_last() =~= all.take(i as int));
                assert(all.take(i + 1).last() == p@);
            }
            let given = chosen.video.is_some() || chosen.serial.is_some();
            let hit = (chosen.video.is_none() || is_chosen(&chosen.video, &p.video.dev)) && (
            chosen.serial.is_none() || is_chosen(&chosen.serial, &p.serial.dev));
            if given && hit {
                s.append("->");
            } else {
                s.append("  ");
            }
            s.append(" ");
            s.append(p.text().as_str());
            s.append("\n");
            i = i + 1;
            assert(s@ =~= old(s)@ + pair_lines(all.take(i as int), c));
        }
        assert(all.take(all.len() as int) =~= all);
    }

    /// The inventory as text.
    pub fn text(&self) -> (s: String)
        ensures
            s@ == self.words(),
    {
        let inv = self.inventory;
        let c = self.constraints;
        let mut s = "video nodes:\n".to_owned();
        push_none(&mut s, inv.videos.len());
        self.push_videos(&mut s);
        s.append("serial nodes:\n");
        push_none(&mut s, inv.serials.len());
        self.push_serials(&mut s);
        s.append("sound cards:\n");
        push_none(&mut s, inv.cards.len());
        self.push_cards(&mut s);
        s.append("pairs:\n");
        push_none(&mut s, inv.pairs.len());
        self.push_pairs(&mut s);
        let known = match &c.video {
            Some(p) => inv.video(p).is_some(),
            None => false,
        };
        push_unknown(&mut s, NodeKind::Video, &c.video, known);
        let known = match &c.serial {
            Some(p) => inv.serial(p).is_some(),
            None => false,
        };
        push_unknown(&mut s, NodeKind::Serial, &c.serial, known);
        if let (Some(v), Some(t)) = (&c.video, &c.serial) {
            s.append("selection: ");
            s.append(v.text());
            s.append(" + ");
            s.append(t.text());
            s.append(" — both given explicitly, so discovery is not consulted.\n");
        }
        assert(s@ =~= self.words());
        s
    }
}

impl Inventory {
    /// The inventory with the given paths marked, for printing.
    pub fn listing<'a>(&'a self, constraints: &'a Constraints) -> (r: Listing<'a>)
        ensures
            r.words() == listing_words(self@, constraints@),
    {
        Listing { inventory: self, constraints }
    }

    /// The inventory as text.
    pub fn text(&self) -> (s: String)
        ensures
            s@ == inventory_words(self@),
    {
        let none = Constraints { video: None, serial: None };
        self.listing(&none).text()
    }
}

/// Paths with a comma and a space between each two.
pub open spec fn path_list(paths: Seq<path::Spelled>) -> Seq<char>
    decreases paths.len(),
{
    if paths.len() == 0 {
        seq![]
    } else if paths.len() == 1 {
        paths[0].text
    } else {
        path_list(paths.drop_last()) + ", "@ + paths.last().text
    }
}

fn push_paths(s: &mut String, paths: &Vec<NodePath>)
    ensures
        final(s)@ == old(s)@ + path_list(path::spellings(paths@)),
{
    let ghost all = path::spellings(paths@);
    let mut i: usize = 0;
    assert(s@ =~= old(s)@ + path_list(all.take(0)));
    while i < paths.len()
        invariant
            i <= paths@.len(),
            all == path::spellings(paths@),
            s@ == old(s)@ + path_list(all.take(i as int)),
        decreases paths@.len() - i,
    {
        proof {
            assert(all.take(i + 1).drop_last() =~= all.take(i as int));
            assert(all.take(i + 1).last() == paths@[i as int].spelled());
        }
        if i > 0 {
            s.append(", ");
        }
        s.append(paths[i].text());
        i = i + 1;
        assert(s@ =~= old(s)@ + path_list(all.take(i as int)));
    }
    assert(all.take(all.len() as int) =~= all);
}

impl super::ErrorView {
    /// The error as text.
    pub open spec fn words(self) -> Seq<char> {
        match self {
            super::ErrorView::NoVideoNodes =>
                "no USB video node found under /sys/class/video4linux. Is the dongle plugged in?"@,
            super::ErrorView::NoSerialNodes =>
                "no USB ttyACM node found under /sys/class/tty. Is the dongle plugged in, and is the cdc_acm module loaded?"@,
            super::ErrorView::NoPair(inv) =>
                "no video node could be paired with a serial node by USB topology.\n"@
                + inventory_words(inv)
                + "Pass both --video and --serial to select the nodes yourself."@,
            super::ErrorView::Ambiguous(inv) =>
                "more than one candidate pair; refusing to guess.\n"@ + inventory_words(inv)
                + "Pass --video and/or --serial to say which one you mean."@,
            super::ErrorView::ProbesDenied(inv) =>
                "permission denied on every video node discovery tried to identify (EACCES), so the capture node cannot be told from its metadata sibling.\n"@
                + inventory_words(inv)
                + "Add yourself to the 'video' group and log in again, or pass --video and --serial to select the nodes yourself."@,
            super::ErrorView::ConstraintNotFound { kind, path, available } => kind.flag_words()
                + " "@ + path.text + " is not a USB "@ + kind.words()
                + " node on this system. Available: "@ + (if available.len() == 0 {
                "(none)"@
            } else {
                path_list(available)
            }),
            super::ErrorView::ConstraintUnpaired { kind, path, inventory } => kind.flag_words()
                + " "@ + path.text + " does not pair with any "@ + kind.counterpart().words()
                + " node by USB topology, so the "@ + kind.counterpart().words()
                + " node cannot be inferred.\n"@ + inventory_words(inventory) + "Pass "@
                + kind.counterpart().flag_words() + " as well."@,
        }
    }
}

impl DiscoveryError {
    /// The error as text.
    pub fn text(&self) -> (s: String)
        ensures
            s@ == self@.words(),
    {
        match self {
            DiscoveryError::NoVideoNodes =>
                "no USB video node found under /sys/class/video4linux. Is the dongle plugged in?".to_owned(),
            DiscoveryError::NoSerialNodes =>
                "no USB ttyACM node found under /sys/class/tty. Is the dongle plugged in, and is the cdc_acm module loaded?".to_owned(),
            DiscoveryError::NoPair(inv) => {
                let mut s =
                    "no video node could be paired with a serial node by USB topology.\n".to_owned();
                s.append(inv.text().as_str());
                s.append("Pass both --video and --serial to select the nodes yourself.");
                s
            },
            DiscoveryError::Ambiguous(inv) => {
                let mut s = "more than one candidate pair; refusing to guess.\n".to_owned();
                s.append(inv.text().as_str());
                s.append("Pass --video and/or --serial to say which one you mean.");
                s
            },
            DiscoveryError::ProbesDenied(inv) => {
                let mut s =
                    "permission denied on every video node discovery tried to identify (EACCES), so the capture node cannot be told from its metadata sibling.\n".to_owned();
                s.append(inv.text().as_str());
                s.append(
                    "Add yourself to the 'video' group and log in again, or pass --video and --serial to select the nodes yourself.",
                );
                s
            },
            DiscoveryError::ConstraintNotFound { kind, path, available } => {
                let mut s = kind.flag().to_owned();
                s.append(" ");
                s.append(path.text());
                s.append(" is not a USB ");
                s.append(kind.text());
                s.append(" node on this system. Available: ");
                if available.len() == 0 {
                    s.append("(none)");
                } else {
                    push_paths(&mut s, available);
                }
                assert(path::spellings(available@).len() == available@.len());
                s
            },
            DiscoveryError::ConstraintUnpaired { kind, path, inventory } => {
                let mut s = kind.flag().to_owned();
                s.append(" ");
                s.append(path.text());
                s.append(" does not pair with any ");
                s.append(kind.other().text());
                s.append(" node by USB topology, so the ");
                s.append(kind.other().text());
                s.append(" node cannot be inferred.\n");
                s.append(inventory.text().as_str());
                s.append("Pass ");
                s.append(kind.other().flag());
                s.append(" as well.");
                s
            },
        }
    }
}

// ---- what every report names ---------------------------------------------------------------

proof fn lemma_mentions_itself(text: Seq<char>)
    ensures
        text::mentions(text, text),
{
    reveal(text::mentions);
    assert(text.subrange(0int, 0int + text.len()) =~= text);
}

proof fn lemma_mentions_in_front(a: Seq<char>, b: Seq<char>, part: Seq<char>)
    requires
        text::mentions(a, part),
    ensures
        text::mentions(a + b, part),
{
    reveal(text::mentions);
    let i = choose|i: int|
        0 <= i && i + part.len() <= a.len() && #[trigger] a.subrange(i, i + part.len()) == part;
    assert((a + b).subrange(i, i + part.len()) =~= part);
}

proof fn lemma_mentions_behind(a: Seq<char>, b: Seq<char>, part: Seq<char>)
    requires
        text::mentions(b, part),
    ensures
        text::mentions(a + b, part),
{
    reveal(text::mentions);
    let i = choose|i: int|
        0 <= i && i + part.len() <= b.len() && #[trigger] b.subrange(i, i + part.len()) == part;
    assert((a + b).subrange(a.len() + i, a.len() + i + part.len()) =~= part);
}

broadcast proof fn lemma_mentions_either(a: Seq<char>, b: Seq<char>, part: Seq<char>)
    requires
        text::mentions(a, part) || text::mentions(b, part),
    ensures
        #[trigger] text::mentions(a + b, part),
{
    if text::mentions(a, part) {
        lemma_mentions_in_front(a, b, part);
    } else {
        lemma_mentions_behind(a, b, part);
    }
}

/// The ids of a device, as they are printed.
pub open spec fn id_words(usb: topology::UsbView) -> Seq<char> {
    crate::text::zero_padded(crate::text::numeral(usb.vid as nat, 16), 4) + ":"@
        + crate::text::zero_padded(crate::text::numeral(usb.pid as nat, 16), 4)
}

/// Whether a text names a node: by its path, and by the ids of its device if it has one.
pub open spec fn names_node(
    text: Seq<char>,
    dev: path::Spelled,
    usb: Option<topology::UsbView>,
) -> bool {
    text::mentions(text, dev.text) && (usb matches Some(u) ==> text::mentions(text, id_words(u)))
}

/// Whether a text names all that an inventory holds.
pub open spec fn names_all(text: Seq<char>, inv: super::InventoryView) -> bool {
    &&& forall|i: int|
        0 <= i < inv.videos.len() ==> names_node(
            text,
            (#[trigger] inv.videos[i]).dev,
            inv.videos[i].usb,
        )
    &&& forall|i: int|
        0 <= i < inv.serials.len() ==> names_node(
            text,
            (#[trigger] inv.serials[i]).dev,
            inv.serials[i].usb,
        )
    &&& forall|i: int|
        0 <= i < inv.cards.len() ==> text::mentions(text, (#[trigger] inv.cards[i]).words())
    &&& forall|i: int|
        0 <= i < inv.pairs.len() ==> text::mentions(text, (#[trigger] inv.pairs[i]).words())
}

proof fn lemma_mentions_run(
    front: Seq<char>,
    a: Seq<char>,
    b: Seq<char>,
    c: Seq<char>,
    d: Seq<char>,
    e: Seq<char>,
)
    ensures
        text::mentions(front + a + b + c + d + e, a + b + c),
{
    lemma_mentions_itself(a + b + c);
    lemma_mentions_behind(front, a + b + c, a + b + c);
    lemma_mentions_in_front(front + (a + b + c), d, a + b + c);
    lemma_mentions_in_front(front + (a + b + c) + d, e, a + b + c);
    assert(front + a + b + c =~= front + (a + b + c));
}

proof fn lemma_device_names_its_ids(usb: topology::UsbView)
    ensures
        text::mentions(usb.words(), id_words(usb)),
{
    lemma_mentions_run(
        usb.name + " "@,
        crate::text::zero_padded(crate::text::numeral(usb.vid as nat, 16), 4),
        ":"@,
        crate::text::zero_padded(crate::text::numeral(usb.pid as nat, 16), 4),
        match usb.product {
            Some(p) => " \""@ + p + "\""@,
            None => seq![],
        },
        match usb.speed {
            Some(s) => " "@ + s + "M"@,
            None => seq![],
        },
    );
}

proof fn lemma_video_lines_name(
    v: Seq<nodes::VideoView>,
    chosen: Option<path::Spelled>,
    i: int,
)
    requires
        0 <= i < v.len(),
    ensures
        names_node(video_lines(v, chosen), v[i].dev, v[i].usb),
    decreases v.len(),
{
    broadcast use lemma_mentions_either;

    if i < v.len() - 1 {
        lemma_video_lines_name(v.drop_last(), chosen, i);
    } else {
        lemma_mentions_itself(v[i].dev.text);
        if let Some(u) = v[i].usb {
            lemma_device_names_its_ids(u);
        }
        assert(names_node(video_line(v[i], chosen), v[i].dev, v[i].usb));
    }
}

proof fn lemma_serial_lines_name(
    v: Seq<nodes::SerialView>,
    chosen: Option<path::Spelled>,
    i: int,
)
    requires
        0 <= i < v.len(),
    ensures
        names_node(serial_lines(v, chosen), v[i].dev, v[i].usb),
    decreases v.len(),
{
    broadcast use lemma_mentions_either;

    if i < v.len() - 1 {
        lemma_serial_lines_name(v.drop_last(), chosen, i);
    } else {
        lemma_mentions_itself(v[i].dev.text);
        if let Some(u) = v[i].usb {
            lemma_device_names_its_ids(u);
        }
        assert(names_node(serial_line(v[i], chosen), v[i].dev, v[i].usb));
    }
}

proof fn lemma_card_lines_name(v: Seq<nodes::CardView>, i: int)
    requires
        0 <= i < v.len(),
    ensures
        text::mentions(card_lines(v), v[i].words()),
    decreases v.len(),
{
    broadcast use lemma_mentions_either;

    if i < v.len() - 1 {
        lemma_card_lines_name(v.drop_last(), i);
    } else {
        lemma_mentions_itself(v[i].words());
        assert(text::mentions(card_line(v[i]), v[i].words()));
    }
}

proof fn lemma_pair_lines_name(v: Seq<nodes::PairView>, c: super::ConstraintsView, i: int)
    requires
        0 <= i < v.len(),
    ensures
        text::mentions(pair_lines(v, c), v[i].words()),
    decreases v.len(),
{
    broadcast use lemma_mentions_either;

    if i < v.len() - 1 {
        lemma_pair_lines_name(v.drop_last(), c, i);
    } else {
        lemma_mentions_itself(v[i].words());
        assert(text::mentions(pair_line(v[i], c), v[i].words()));
    }
}

/// A listing names every node with the ids of its device, every card and every pair, whatever
/// paths were given.
pub proof fn a_listing_names_all_that_was_found(
    inv: super::InventoryView,
    c: super::ConstraintsView,
)
    ensures
        names_all(listing_words(inv, c), inv),
{
    broadcast use lemma_mentions_either;

    let text = listing_words(inv, c);
    assert forall|i: int| 0 <= i < inv.videos.len() implies names_node(
        text,
        (#[trigger] inv.videos[i]).dev,
        inv.videos[i].usb,
    ) by {
        lemma_video_lines_name(inv.videos, c.video, i);
    }
    assert forall|i: int| 0 <= i < inv.serials.len() implies names_node(
        text,
        (#[trigger] inv.serials[i]).dev,
        inv.serials[i].usb,
    ) by {
        lemma_serial_lines_name(inv.serials, c.serial, i);
    }
    assert forall|i: int| 0 <= i < inv.cards.len() implies text::mentions(
        text,
        (#[trigger] inv.cards[i]).words(),
    ) by {
        lemma_card_lines_name(inv.cards, i);
    }
    assert forall|i: int| 0 <= i < inv.pairs.len() implies text::mentions(
        text,
        (#[trigger] inv.pairs[i]).words(),
    ) by {
        lemma_pair_lines_name(inv.pairs, c, i);
    }
}

proof fn lemma_path_list_names(paths: Seq<path::Spelled>, i: int)
    requires
        0 <= i < paths.len(),
    ensures
        text::mentions(path_list(paths), paths[i].text),
    decreases paths.len(),
{
    broadcast use lemma_mentions_either;

    lemma_mentions_itself(paths[i].text);
    if paths.len() > 1 && i < paths.len() - 1 {
        lemma_path_list_names(paths.drop_last(), i);
    }
}

proof fn lemma_names_all_in(a: Seq<char>, b: Seq<char>, c: Seq<char>, inv: super::InventoryView)
    requires
        names_all(b, inv),
    ensures
        names_all(a + b + c, inv),
{
    broadcast use lemma_mentions_either;

    let text = a + b + c;
    assert forall|i: int| 0 <= i < inv.videos.len() implies names_node(
        text,
        (#[trigger] inv.videos[i]).dev,
        inv.videos[i].usb,
    ) by {
        assert(names_node(b, inv.videos[i].dev, inv.videos[i].usb));
    }
    assert forall|i: int| 0 <= i < inv.serials.len() implies names_node(
        text,
        (#[trigger] inv.serials[i]).dev,
        inv.serials[i].usb,
    ) by {
        assert(names_node(b, inv.serials[i].dev, inv.serials[i].usb));
    }
}

/// An error names everything that there is to choose from: all that was found, or the nodes that
/// the given path could have been, and the path that was given.
pub proof fn an_error_names_all_there_is_to_choose_from(e: super::ErrorView)
    ensures
        match e {
            super::ErrorView::NoVideoNodes => true,
            super::ErrorView::NoSerialNodes => true,
            super::ErrorView::NoPair(inv) => names_all(e.words(), inv),
            super::ErrorView::Ambiguous(inv) => names_all(e.words(), inv),
            super::ErrorView::ProbesDenied(inv) => names_all(e.words(), inv),
            super::ErrorView::ConstraintNotFound { path, available, .. } => {
                &&& text::mentions(e.words(), path.text)
                &&& forall|i: int|
                    0 <= i < available.len() ==> text::mentions(e.words(), (#[trigger] available[i]).text)
            },
            super::ErrorView::ConstraintUnpaired { path, inventory, .. } => {
                &&& text::mentions(e.words(), path.text)
                &&& names_all(e.words(), inventory)
            },
        },
{
    broadcast use lemma_mentions_either;

    let none = super::ConstraintsView { video: None, serial: None };
    match e {
        super::ErrorView::NoVideoNodes => {},
        super::ErrorView::NoSerialNodes => {},
        super::ErrorView::NoPair(inv) => {
            a_listing_names_all_that_was_found(inv, none);
            lemma_names_all_in(
                "no video node could be paired with a serial node by USB topology.\n"@,
                inventory_words(inv),
                "Pass both --video and --serial to select the nodes yourself."@,
                inv,
            );
        },
        super::ErrorView::Ambiguous(inv) => {
            a_listing_names_all_that_was_found(inv, none);
            lemma_names_all_in(
                "more than one candidate pair; refusing to guess.\n"@,
                inventory_words(inv),
                "Pass --video and/or --serial to say which one you mean."@,
                inv,
            );
        },
        super::ErrorView::ProbesDenied(inv) => {
            a_listing_names_all_that_was_found(inv, none);
            lemma_names_all_in(
                "permission denied on every video node discovery tried to identify (EACCES), so the capture node cannot be told from its metadata sibling.\n"@,
                inventory_words(inv),
                "Add yourself to the 'video' group and log in again, or pass --video and --serial to select the nodes yourself."@,
                inv,
            );
        },
        super::ErrorView::ConstraintNotFound { kind, path, available } => {
            lemma_mentions_itself(path.text);
            assert forall|i: int| 0 <= i < available.len() implies text::mentions(
                e.words(),
                (#[trigger] available[i]).text,
            ) by {
                lemma_path_list_names(available, i);
            }
        },
        super::ErrorView::ConstraintUnpaired { kind, path, inventory } => {
            lemma_mentions_itself(path.text);
            a_listing_names_all_that_was_found(inventory, none);
            let front = kind.flag_words() + " "@ + path.text + " does not pair with any "@
                + kind.counterpart().words() + " node by USB topology, so the "@
                + kind.counterpart().words() + " node cannot be inferred.\n"@;
            let back = "Pass "@ + kind.counterpart().flag_words() + " as well."@;
            lemma_names_all_in(front, inventory_words(inventory), back, inventory);
            assert(front + inventory_words(inventory) + back =~= e.words());
        },
    }
}

} // verus!
