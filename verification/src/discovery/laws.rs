//! What discovery promises, over the devices and the tree themselves.

use vstd::prelude::*;

use super::nodes::{self, AudioView, CardView};
use super::reopen::{self, NodeResolver};
use super::sysfs::Sysfs;
use super::topology::{self, EvidenceView, UsbView};
use crate::path::{self, PathView};
use crate::text;

verus! {

// ---- which devices are one -----------------------------------------------------------------

/// Two nodes are on one device where their directories are one, or where both have the same number
/// on the same bus. Numbers start over on every bus, so the number alone says nothing, and a number
/// that is missing makes nothing equal.
pub proof fn one_device_has_one_place_on_one_bus<S: Sysfs>(s: &S, v: UsbView, t: UsbView)
    ensures
        super::joins(s, Some(v), Some(t)) == Some(EvidenceView::SameDevice) <==> (v.sysfs.path
            == t.sysfs.path || (v.busnum == t.busnum && v.devnum == t.devnum && v.devnum != 0)),
        super::joins(s, Some(v), None) is None,
        super::joins(s, None, Some(t)) is None,
{
}

/// A card plays for a video node only from the node's own device: from its directory, or with its
/// number on its bus. The one card there is chosen, and where there are several none is.
pub proof fn a_card_pairs_on_the_place_of_the_video_node(
    video: UsbView,
    cards: Seq<CardView>,
    i: int,
)
    requires
        0 <= i < cards.len(),
    ensures
        nodes::audio_of(Some(video), cards) == AudioView::Paired(cards[i]) ==> on_device(
            video,
            cards[i],
        ),
        on_device(video, cards[i]) && (forall|j: int|
            0 <= j < cards.len() && j != i ==> !on_device(video, #[trigger] cards[j]))
            ==> nodes::audio_of(Some(video), cards) == AudioView::Paired(cards[i]),
        on_device(video, cards[i]) ==> nodes::audio_of(Some(video), cards) is Paired
            || nodes::audio_of(Some(video), cards) is Ambiguous,
        nodes::audio_of(None, cards) is Unknown,
{
    nodes::audio_pairs_only_on_the_nodes_own_device(Some(video), cards);
    if on_device(video, cards[i]) {
        nodes::lemma_cards_on_all(video, cards, i);
        let k = choose|k: int|
            0 <= k < nodes::cards_on(video, cards).len() && nodes::cards_on(video, cards)[k]
                == cards[i];
        if forall|j: int| 0 <= j < cards.len() && j != i ==> !on_device(video, #[trigger] cards[j]) {
            lemma_one_card_on(video, cards, i);
        }
    }
}

/// Whether a card is on a device: in its directory, or with its number on its bus.
pub open spec fn on_device(video: UsbView, card: CardView) -> bool {
    &&& card.usb is Some
    &&& video.sysfs.path == card.usb->0.sysfs.path || (video.busnum == card.usb->0.busnum
        && video.devnum == card.usb->0.devnum && video.devnum != 0)
}

proof fn lemma_no_card_on(video: UsbView, cards: Seq<CardView>)
    requires
        forall|j: int| 0 <= j < cards.len() ==> !on_device(video, #[trigger] cards[j]),
    ensures
        nodes::cards_on(video, cards).len() == 0,
    decreases cards.len(),
{
    if cards.len() > 0 {
        assert forall|j: int| 0 <= j < cards.len() - 1 implies !on_device(
            video,
            #[trigger] cards.drop_last()[j],
        ) by {
            assert(!on_device(video, cards[j]));
        }
        lemma_no_card_on(video, cards.drop_last());
        assert(!on_device(video, cards[cards.len() - 1]));
    }
}

proof fn lemma_one_card_on(video: UsbView, cards: Seq<CardView>, i: int)
    requires
        0 <= i < cards.len(),
        on_device(video, cards[i]),
        forall|j: int| 0 <= j < cards.len() && j != i ==> !on_device(video, #[trigger] cards[j]),
    ensures
        nodes::cards_on(video, cards) == seq![cards[i]],
    decreases cards.len(),
{
    let head = cards.drop_last();
    if i == cards.len() - 1 {
        assert forall|j: int| 0 <= j < head.len() implies !on_device(video, #[trigger] head[j]) by {
            assert(!on_device(video, cards[j]));
        }
        lemma_no_card_on(video, head);
        assert(nodes::cards_on(video, cards) =~= seq![cards[i]]);
    } else {
        assert forall|j: int| 0 <= j < head.len() && j != i implies !on_device(
            video,
            #[trigger] head[j],
        ) by {
            assert(!on_device(video, cards[j]));
        }
        assert(head[i] == cards[i]);
        lemma_one_card_on(video, head, i);
        assert(!on_device(video, cards[cards.len() - 1]));
    }
}

// ---- what joins two devices ----------------------------------------------------------------

/// Where a device is plugged into a hub `hub` at port `port`, its directory is named after both,
/// and the port's own directory stands below the hub's first interface.
pub proof fn a_port_is_found_below_its_hub(
    above: PathView,
    hub: Seq<char>,
    bus: Seq<char>,
    middle: Seq<char>,
    port: Seq<char>,
)
    requires
        !bus.contains('-'),
        !port.contains('.'),
        middle.len() == 0 || middle.last() == '.',
        hub.len() > 0,
        hub != "."@ && hub != ".."@,
        (bus + "-"@ + middle + port) != "."@ && (bus + "-"@ + middle + port) != ".."@,
    ensures
        topology::port_dir(above.child(hub).child(bus + "-"@ + middle + port)) == Some(
            if text::has_prefix(hub, "usb"@) {
                above.child(hub).child(bus + "-0:1.0"@).child("usb"@ + bus + "-port"@ + port)
            } else {
                above.child(hub).child(hub + ":1.0"@).child(hub + "-port"@ + port)
            },
        ),
{
    reveal_strlit("-");
    reveal_strlit(".");
    reveal_strlit("..");
    assert("."@ =~= seq!['.']);
    assert(".."@ =~= seq!['.', '.']);
    let name = bus + "-"@ + middle + port;
    let device = above.child(hub).child(name);
    assert(device.parts.drop_last() =~= above.child(hub).parts);
    assert(device.parent() == Some(above.child(hub)));
    assert(device.parts.last() == name);
    assert(above.child(hub).parts.last() == hub);
    assert forall|i: int| 0 <= i < bus.len() implies name[i] != '-' by {
        assert(bus.contains(bus[i]));
    }
    assert(name[bus.len() as int] == '-');
    text::lemma_first_at(name, '-', bus.len() as int);
    assert(name.take(bus.len() as int) =~= bus);
    let rest = name.skip(bus.len() as int + 1);
    assert(rest =~= middle + port);
    assert forall|i: int| middle.len() <= i < rest.len() implies rest[i] != '.' by {
        assert(port.contains(port[i - middle.len()]));
    }
    text::lemma_after_last(rest, '.', middle.len() as int);
    assert(rest.skip(middle.len() as int) =~= port);
}

/// The kernel's link joins a video and a serial device through their ports: from the port that the
/// video device is plugged into, over its `peer`, to a device that is the serial device or has it
/// below. Where that link stands there, it is taken, unless the two are one device.
pub proof fn a_peer_leads_to_the_serial_device<S: Sysfs>(s: &S, v: UsbView, t: UsbView)
    ensures
        super::joins(s, Some(v), Some(t)) matches Some(EvidenceView::PortPeer {
            video_port,
            peer_port,
        }) ==> exists|port: PathView, peer: path::Spelled, device: path::Spelled|
            peers(s, v, t, port, peer, device) && port.parts.last() == video_port
                && peer.path.parts.last() == peer_port,
        forall|port: PathView, peer: path::Spelled, device: path::Spelled|
            peers(s, v, t, port, peer, device) && port.file_name() is Some
                && peer.path.file_name() is Some ==> (super::joins(s, Some(v), Some(t)) matches Some(
                e,
            ) && !(e is InternalHub)),
{
    if let Some(EvidenceView::PortPeer { video_port, peer_port }) = super::joins(
        s,
        Some(v),
        Some(t),
    ) {
        let port = topology::port_dir(v.sysfs.path)->0;
        let peer = s.link(port.child("peer"@))->0;
        let device = s.link(peer.path.child("device"@))->0;
        assert(peers(s, v, t, port, peer, device)) by {
            let n = device.path.parts.len() as int;
            if !device.path.is_nothing() {
                assert forall|i: int| 0 <= i < n implies device.path.parts[i]
                    == t.sysfs.path.parts[i] by {
                    assert(t.sysfs.path.parts.take(n)[i] == t.sysfs.path.parts[i]);
                }
            }
        }
    }
    assert forall|port: PathView, peer: path::Spelled, device: path::Spelled|
        peers(s, v, t, port, peer, device) && port.file_name() is Some && peer.path.file_name()
            is Some implies (super::joins(s, Some(v), Some(t)) matches Some(e) && !(e
        is InternalHub)) by {
        let n = device.path.parts.len() as int;
        if !device.path.is_nothing() {
            assert(t.sysfs.path.parts.take(n) =~= device.path.parts);
        }
    }
}

/// Whether the serial device `t` lies at or below the device on the other side of the port that
/// the video device `v` is plugged into.
pub open spec fn peers<S: Sysfs>(
    s: &S,
    v: UsbView,
    t: UsbView,
    port: PathView,
    peer: path::Spelled,
    device: path::Spelled,
) -> bool {
    &&& topology::port_dir(v.sysfs.path) == Some(port)
    &&& s.link(port.child("peer"@)) == Some(peer)
    &&& s.link(peer.path.child("device"@)) == Some(device)
    &&& (device.path.parts.len() == 0 && !device.path.rooted) || (device.path.rooted
        == t.sysfs.path.rooted && device.path.parts.len() <= t.sysfs.path.parts.len()
        && forall|i: int|
        0 <= i < device.path.parts.len() ==> device.path.parts[i] == t.sysfs.path.parts[i])
}

/// Without word from the kernel, two devices are joined only as direct children of one hub, and
/// only where all three are the parts that the dongle is made of.
pub proof fn a_hub_joins_only_the_parts_of_the_dongle<S: Sysfs>(s: &S, v: UsbView, t: UsbView)
    ensures
        super::joins(s, Some(v), Some(t)) matches Some(EvidenceView::InternalHub { hub }) ==> {
            &&& v.vid == 0x345f && v.pid == 0x2133
            &&& t.vid == 0x1a86 && t.pid == 0x55d3
            &&& hub.vid == 0x1a40 && hub.pid == 0x0101
            &&& v.sysfs.path.parts.len() > 0 && v.sysfs.path.parts.drop_last()
                == hub.sysfs.path.parts && v.sysfs.path.rooted == hub.sysfs.path.rooted
            &&& t.sysfs.path.parts.len() > 0 && t.sysfs.path.parts.drop_last()
                == hub.sysfs.path.parts && t.sysfs.path.rooted == hub.sysfs.path.rooted
        },
        // and it does join them, where the kernel says nothing
        ({
            &&& v.vid == 0x345f && v.pid == 0x2133
            &&& t.vid == 0x1a86 && t.pid == 0x55d3
            &&& v.sysfs.path != t.sysfs.path
            &&& v.sysfs.path.parent() is Some
            &&& v.sysfs.path.parent() == t.sysfs.path.parent()
            &&& s.present(v.sysfs.path.parent()->0.child("idVendor"@))
            &&& topology::usb_at(s, path::plain(v.sysfs.path.parent()->0)) matches Some(hub)
                && hub.vid == 0x1a40 && hub.pid == 0x0101
        }) ==> super::joins(s, Some(v), Some(t)) is Some,
{
    if v.sysfs.path != t.sysfs.path && v.sysfs.path.parent() is Some && v.sysfs.path.parent()
        == t.sysfs.path.parent() {
        let dir = v.sysfs.path.parent()->0;
        lemma_siblings_share_their_parent(v.sysfs.path, t.sysfs.path);
        assert(path::common(v.sysfs.path, t.sysfs.path) == dir);
    }
}

proof fn lemma_siblings_share_their_parent(a: PathView, b: PathView)
    requires
        a != b,
        a.parent() is Some,
        a.parent() == b.parent(),
    ensures
        path::common(a, b) == a.parent()->0,
{
    let head = a.parts.drop_last();
    assert(a.parts =~= head.push(a.parts.last()));
    assert(b.parts =~= head.push(b.parts.last()));
    if a.parts.last() == b.parts.last() {
        assert(a == b);
    }
    lemma_shared_head(head, a.parts.last(), b.parts.last());
    assert(a.parts.take(head.len() as int) =~= head);
}

proof fn lemma_shared_head(head: Seq<Seq<char>>, x: Seq<char>, y: Seq<char>)
    requires
        x != y,
    ensures
        path::shared_len(head.push(x), head.push(y)) == head.len(),
    decreases head.len(),
{
    if head.len() > 0 {
        lemma_shared_head(head.drop_first(), x, y);
        assert(head.push(x).drop_first() =~= head.drop_first().push(x));
        assert(head.push(y).drop_first() =~= head.drop_first().push(y));
    }
}

// ---- what an inventory holds ---------------------------------------------------------------

proof fn lemma_candidate_of_is_found<S: Sysfs>(
    s: &S,
    videos: Seq<nodes::VideoView>,
    serials: Seq<nodes::SerialView>,
    vi: int,
    n: nat,
    t: int,
)
    requires
        0 <= t < n,
        super::joins(s, videos[vi].usb, serials[t].usb) is Some,
    ensures
        exists|k: int|
            #![trigger super::candidates_of(s, videos, serials, vi, n)[k]]
            0 <= k < super::candidates_of(s, videos, serials, vi, n).len()
                && super::candidates_of(s, videos, serials, vi, n)[k] == (super::Candidate {
                video: vi,
                serial: t,
                evidence: super::joins(s, videos[vi].usb, serials[t].usb)->0,
            }),
    decreases n,
{
    let all = super::candidates_of(s, videos, serials, vi, n);
    let rest = super::candidates_of(s, videos, serials, vi, (n - 1) as nat);
    if t < n - 1 {
        lemma_candidate_of_is_found(s, videos, serials, vi, (n - 1) as nat, t);
        let k = choose|k: int|
            #![trigger rest[k]]
            0 <= k < rest.len() && rest[k] == (super::Candidate {
                video: vi,
                serial: t,
                evidence: super::joins(s, videos[vi].usb, serials[t].usb)->0,
            });
        assert(all[k] == rest[k]);
    } else {
        assert(all[all.len() - 1].video == vi);
    }
}

proof fn lemma_candidate_is_found<S: Sysfs>(
    s: &S,
    videos: Seq<nodes::VideoView>,
    serials: Seq<nodes::SerialView>,
    n: nat,
    v: int,
    t: int,
)
    requires
        0 <= v < n <= videos.len(),
        0 <= t < serials.len(),
        super::joins(s, videos[v].usb, serials[t].usb) is Some,
    ensures
        exists|k: int|
            #![trigger super::candidates(s, videos, serials, n)[k]]
            0 <= k < super::candidates(s, videos, serials, n).len() && super::candidates(
                s,
                videos,
                serials,
                n,
            )[k] == (super::Candidate {
                video: v,
                serial: t,
                evidence: super::joins(s, videos[v].usb, serials[t].usb)->0,
            }),
    decreases n,
{
    let all = super::candidates(s, videos, serials, n);
    let rest = super::candidates(s, videos, serials, (n - 1) as nat);
    let row = super::candidates_of(s, videos, serials, n - 1, serials.len());
    let want = super::Candidate {
        video: v,
        serial: t,
        evidence: super::joins(s, videos[v].usb, serials[t].usb)->0,
    };
    if v < n - 1 {
        lemma_candidate_is_found(s, videos, serials, (n - 1) as nat, v, t);
        let k = choose|k: int| #![trigger rest[k]] 0 <= k < rest.len() && rest[k] == want;
        assert(all[k] == want);
    } else {
        lemma_candidate_of_is_found(s, videos, serials, v, serials.len(), t);
        let k = choose|k: int| #![trigger row[k]] 0 <= k < row.len() && row[k] == want;
        assert(all[rest.len() + k] == want);
    }
}

proof fn lemma_pair_is_made(
    found: Seq<super::Candidate>,
    videos: Seq<nodes::VideoView>,
    serials: Seq<nodes::SerialView>,
    cards: Seq<CardView>,
    n: nat,
    i: int,
)
    requires
        0 <= i < n <= found.len(),
        videos[found[i].video].eligible(videos),
    ensures
        exists|k: int|
            #![trigger super::pairs_among(found, videos, serials, cards, n)[k]]
            0 <= k < super::pairs_among(found, videos, serials, cards, n).len()
                && super::pairs_among(found, videos, serials, cards, n)[k].video
                == videos[found[i].video] && super::pairs_among(
                found,
                videos,
                serials,
                cards,
                n,
            )[k].serial == serials[found[i].serial] && super::pairs_among(
                found,
                videos,
                serials,
                cards,
                n,
            )[k].evidence == Some(found[i].evidence),
    decreases n,
{
    let all = super::pairs_among(found, videos, serials, cards, n);
    let rest = super::pairs_among(found, videos, serials, cards, (n - 1) as nat);
    if i < n - 1 {
        lemma_pair_is_made(found, videos, serials, cards, (n - 1) as nat, i);
        let k = choose|k: int|
            #![trigger rest[k]]
            0 <= k < rest.len() && rest[k].video == videos[found[i].video] && rest[k].serial
                == serials[found[i].serial] && rest[k].evidence == Some(found[i].evidence);
        assert(all[k] == rest[k]);
    } else {
        assert(all[all.len() - 1].video == videos[found[i].video]);
    }
}

/// No pair is overlooked: a video node and a serial node that some evidence joins are a pair of
/// the inventory, unless the video node is known not to capture, or its device has another node
/// that is known to.
pub proof fn every_joined_couple_is_a_pair<S: Sysfs>(
    s: &S,
    answers: Seq<Result<bool, super::probe::FailureView>>,
    v: int,
    t: int,
)
    requires
        0 <= v < super::inventory_of(s, answers).videos.len(),
        0 <= t < super::inventory_of(s, answers).serials.len(),
        ({
            let inv = super::inventory_of(s, answers);
            &&& super::joins(s, inv.videos[v].usb, inv.serials[t].usb) is Some
            &&& inv.videos[v].is_capture == Some(true) || (inv.videos[v].is_capture is None
                && forall|i: int|
                0 <= i < inv.videos.len() && (#[trigger] inv.videos[i]).is_capture == Some(true)
                    && inv.videos[i].usb is Some ==> inv.videos[i].usb->0.sysfs.path
                    != inv.videos[v].usb->0.sysfs.path)
        }),
    ensures
        exists|k: int|
            #![trigger super::inventory_of(s, answers).pairs[k]]
            0 <= k < super::inventory_of(s, answers).pairs.len() && super::inventory_of(
                s,
                answers,
            ).pairs[k].video == super::inventory_of(s, answers).videos[v] && super::inventory_of(
                s,
                answers,
            ).pairs[k].serial == super::inventory_of(s, answers).serials[t],
{
    let inv = super::inventory_of(s, answers);
    let plain = nodes::videos_in(s);
    let found = super::candidates_in(s);
    super::lemma_answers_keep_nodes(plain, found, answers, plain.len());
    assert(inv.videos[v].usb == plain[v].usb);
    lemma_candidate_is_found(s, plain, inv.serials, plain.len(), v, t);
    let i = choose|i: int|
        #![trigger found[i]]
        0 <= i < found.len() && found[i] == (super::Candidate {
            video: v,
            serial: t,
            evidence: super::joins(s, plain[v].usb, inv.serials[t].usb)->0,
        });
    assert(inv.videos[v].eligible(inv.videos));
    lemma_pair_is_made(found, inv.videos, inv.serials, inv.cards, found.len(), i);
    let pairs = super::pairs_among(found, inv.videos, inv.serials, inv.cards, found.len());
    assert(pairs == inv.pairs);
    let k = choose|k: int|
        #![trigger pairs[k]]
        0 <= k < pairs.len() && pairs[k].video == inv.videos[found[i].video] && pairs[k].serial
            == inv.serials[found[i].serial] && pairs[k].evidence == Some(found[i].evidence);
    assert(super::inventory_of(s, answers).pairs[k] == pairs[k]);
}

/// A node that does not capture is never half of a pair, and neither is one that has not said so
/// beside one that has.
pub proof fn only_capture_nodes_pair<S: Sysfs>(
    s: &S,
    answers: Seq<Result<bool, super::probe::FailureView>>,
    k: int,
    i: int,
)
    requires
        0 <= k < super::inventory_of(s, answers).pairs.len(),
        0 <= i < super::inventory_of(s, answers).videos.len(),
    ensures
        ({
            let inv = super::inventory_of(s, answers);
            let p = inv.pairs[k];
            &&& p.video.is_capture != Some(false)
            &&& p.video.usb is Some && p.serial.usb is Some
            &&& p.evidence is Some && p.evidence == super::joins(s, p.video.usb, p.serial.usb)
            &&& p.video.is_capture is None && inv.videos[i].is_capture == Some(true)
                && inv.videos[i].usb is Some ==> inv.videos[i].usb->0.sysfs.path
                != p.video.usb->0.sysfs.path
        }),
{
    super::every_pair_rests_on_evidence(s, answers, k);
}

/// Every video node on the device of a joined couple is asked, once, and what it says of itself is
/// what is noted of it. No other node is asked.
pub proof fn an_answer_is_noted_of_the_node_that_gave_it<S: Sysfs>(
    s: &S,
    answers: Seq<Result<bool, super::probe::FailureView>>,
    i: int,
)
    requires
        0 <= i < nodes::videos_in(s).len(),
        answers.len() == super::questions_in(s).len(),
    ensures
        ({
            let inv = super::inventory_of(s, answers);
            let asked = super::questions_in(s);
            &&& inv.videos.len() == nodes::videos_in(s).len()
            &&& inv.videos[i].dev == nodes::videos_in(s)[i].dev
            &&& inv.videos[i].usb == nodes::videos_in(s)[i].usb
            &&& inv.videos[i].probed ==> exists|j: int|
                #![trigger asked[j]]
                0 <= j < asked.len() && asked[j] == inv.videos[i].dev.path && match answers[j] {
                    Ok(b) => inv.videos[i].is_capture == Some(b) && inv.videos[i].probe_error
                        is None,
                    Err(e) => inv.videos[i].is_capture is None && inv.videos[i].probe_error == Some(
                        e,
                    ),
                }
            &&& !inv.videos[i].probed ==> inv.videos[i].is_capture is None
                && inv.videos[i].probe_error is None
            &&& inv.videos[i].probed <==> exists|v: int, t: int|
                #![trigger inv.videos[v], inv.serials[t]]
                0 <= v < inv.videos.len() && 0 <= t < inv.serials.len() && inv.videos[i].usb is Some
                    && inv.videos[v].usb is Some && inv.videos[v].usb->0.sysfs.path
                    == inv.videos[i].usb->0.sysfs.path && super::joins(
                    s,
                    inv.videos[v].usb,
                    inv.serials[t].usb,
                ) is Some
        }),
{
    let inv = super::inventory_of(s, answers);
    let plain = nodes::videos_in(s);
    let found = super::candidates_in(s);
    super::lemma_answers_keep_nodes(plain, found, answers, plain.len());
    lemma_answer_of(plain, found, answers, plain.len(), i);
    super::only_candidates_are_asked(s, answers, i);
    if exists|v: int, t: int|
        #![trigger inv.videos[v], inv.serials[t]]
        0 <= v < inv.videos.len() && 0 <= t < inv.serials.len() && inv.videos[i].usb is Some
            && inv.videos[v].usb is Some && inv.videos[v].usb->0.sysfs.path
            == inv.videos[i].usb->0.sysfs.path && super::joins(
            s,
            inv.videos[v].usb,
            inv.serials[t].usb,
        ) is Some {
        let (v, t) = choose|v: int, t: int|
            #![trigger inv.videos[v], inv.serials[t]]
            0 <= v < inv.videos.len() && 0 <= t < inv.serials.len() && inv.videos[i].usb is Some
                && inv.videos[v].usb is Some && inv.videos[v].usb->0.sysfs.path
                == inv.videos[i].usb->0.sysfs.path && super::joins(
                s,
                inv.videos[v].usb,
                inv.serials[t].usb,
            ) is Some;
        assert(inv.videos[v].usb == plain[v].usb);
        assert(inv.videos[i].usb == plain[i].usb);
        lemma_candidate_is_found(s, plain, inv.serials, plain.len(), v, t);
        let k = choose|k: int|
            #![trigger found[k]]
            0 <= k < found.len() && found[k] == (super::Candidate {
                video: v,
                serial: t,
                evidence: super::joins(s, plain[v].usb, inv.serials[t].usb)->0,
            });
        assert(super::is_wanted(plain[i], plain, found));
    }
}

proof fn lemma_answer_of(
    videos: Seq<nodes::VideoView>,
    found: Seq<super::Candidate>,
    answers: Seq<Result<bool, super::probe::FailureView>>,
    n: nat,
    i: int,
)
    requires
        0 <= i < n <= videos.len(),
    ensures
        ({
            let asked = super::questions(videos, found, n);
            let now = super::with_answers(videos, found, answers, n);
            &&& now.len() == n
            &&& if super::is_wanted(videos[i], videos, found) {
                exists|j: int|
                    #![trigger asked[j]]
                    0 <= j < asked.len() && asked[j] == videos[i].dev.path && now[i]
                        == super::answered(videos[i], answers[j])
            } else {
                now[i] == videos[i]
            }
        }),
    decreases n,
{
    super::lemma_answers_keep_nodes(videos, found, answers, n);
    let less = (n - 1) as nat;
    let asked = super::questions(videos, found, n);
    let rest = super::questions(videos, found, less);
    if i < n - 1 {
        super::lemma_answers_keep_nodes(videos, found, answers, less);
        lemma_answer_of(videos, found, answers, less, i);
        if super::is_wanted(videos[i], videos, found) {
            let before = super::with_answers(videos, found, answers, less);
            let j = choose|j: int|
                #![trigger rest[j]]
                0 <= j < rest.len() && rest[j] == videos[i].dev.path && before[i]
                    == super::answered(videos[i], answers[j]);
            assert(asked[j] == rest[j]);
        }
    } else if super::is_wanted(videos[i], videos, found) {
        super::lemma_answers_keep_nodes(videos, found, answers, less);
        assert(asked[rest.len() as int] == videos[i].dev.path);
    }
}

// ---- what is selected ----------------------------------------------------------------------

/// Whether a pair has the paths that were given.
pub open spec fn has_given(p: nodes::PairView, c: super::ConstraintsView) -> bool {
    &&& c.video is Some ==> p.video.dev.path == c.video->0.path
    &&& c.serial is Some ==> p.serial.dev.path == c.serial->0.path
}

/// Without two given paths, exactly one pair with what was given is selected; none and several are
/// errors of their own. What several mean depends on the probes: where every one of them was
/// refused for want of permission, that is the error.
pub proof fn one_pair_is_selected_and_never_one_of_several<S: Sysfs>(
    s: &S,
    inv: super::InventoryView,
    c: super::ConstraintsView,
    i: int,
    j: int,
)
    requires
        c.video is None || c.serial is None,
        inv.videos.len() > 0,
        inv.serials.len() > 0,
        c.video is Some ==> exists|k: int|
            0 <= k < inv.videos.len() && (#[trigger] inv.videos[k]).dev.path == c.video->0.path,
        c.serial is Some ==> exists|k: int|
            0 <= k < inv.serials.len() && (#[trigger] inv.serials[k]).dev.path == c.serial->0.path,
    ensures
        0 <= i < inv.pairs.len() && has_given(inv.pairs[i], c) && (forall|k: int|
            0 <= k < inv.pairs.len() && k != i ==> !has_given(#[trigger] inv.pairs[k], c))
            ==> super::verdict(s, inv, c) == Ok::<nodes::PairView, super::ErrorView>(inv.pairs[i]),
        (forall|k: int| 0 <= k < inv.pairs.len() ==> !has_given(#[trigger] inv.pairs[k], c)) ==> (
        super::verdict(s, inv, c) matches Err(e) && (if c.video is None && c.serial is None {
            e is NoPair
        } else {
            e is ConstraintUnpaired
        })),
        0 <= i < j < inv.pairs.len() && has_given(inv.pairs[i], c) && has_given(inv.pairs[j], c)
            ==> (super::verdict(s, inv, c) matches Err(e) && (if (exists|k: int|
            0 <= k < inv.videos.len() && (#[trigger] inv.videos[k]).probed) && (forall|k: int|
            0 <= k < inv.videos.len() && (#[trigger] inv.videos[k]).probed
                ==> inv.videos[k].probe_error is Some && inv.videos[k].probe_error->0.errno
                == Some(13i32)) {
            e is ProbesDenied
        } else {
            e is Ambiguous
        })),
{
    match (c.video, c.serial) {
        (Some(v), _) => {
            lemma_video_is_found(inv.videos, v.path);
            lemma_kept(inv.pairs, c, super::NodeKind::Video, v.path, i, j);
        },
        (None, Some(t)) => {
            lemma_serial_is_found(inv.serials, t.path);
            lemma_kept(inv.pairs, c, super::NodeKind::Serial, t.path, i, j);
        },
        (None, None) => {
            if 0 <= i < inv.pairs.len() && forall|k: int|
                0 <= k < inv.pairs.len() && k != i ==> !has_given(#[trigger] inv.pairs[k], c) {
                if inv.pairs.len() > 1 {
                    let other: int = if i == 0 {
                        1
                    } else {
                        0
                    };
                    assert(has_given(inv.pairs[other], c));
                }
            }
            if inv.pairs.len() > 0 {
                assert(has_given(inv.pairs[0], c));
            }
        },
    }
}

/// A path that was given and is no node of the inventory is named in the error, with those that
/// are there to choose from.
pub proof fn a_path_that_is_not_there_is_refused<S: Sysfs>(
    s: &S,
    inv: super::InventoryView,
    c: super::ConstraintsView,
)
    requires
        inv.videos.len() > 0,
        inv.serials.len() > 0,
    ensures
        c.video is Some && c.serial is None && (forall|k: int|
            0 <= k < inv.videos.len() ==> (#[trigger] inv.videos[k]).dev.path != c.video->0.path)
            ==> (super::verdict(s, inv, c) matches Err(
            super::ErrorView::ConstraintNotFound { kind, path, available },
        ) && kind == super::NodeKind::Video && path == c.video->0 && available.len()
            == inv.videos.len() && forall|k: int|
            0 <= k < available.len() ==> #[trigger] available[k] == inv.videos[k].dev),
        c.video is None && c.serial is Some && (forall|k: int|
            0 <= k < inv.serials.len() ==> (#[trigger] inv.serials[k]).dev.path
                != c.serial->0.path) ==> (super::verdict(s, inv, c) matches Err(
            super::ErrorView::ConstraintNotFound { kind, path, available },
        ) && kind == super::NodeKind::Serial && path == c.serial->0 && available.len()
            == inv.serials.len() && forall|k: int|
            0 <= k < available.len() ==> #[trigger] available[k] == inv.serials[k].dev),
{
    if c.video is Some {
        super::lemma_find_video(inv.videos, c.video->0.path);
    }
    if c.serial is Some {
        super::lemma_find_serial(inv.serials, c.serial->0.path);
    }
}

/// Nothing to choose from is said before anything else, the video nodes first, unless both paths
/// were given.
pub proof fn an_empty_tree_has_its_own_error<S: Sysfs>(
    s: &S,
    inv: super::InventoryView,
    c: super::ConstraintsView,
)
    requires
        c.video is None || c.serial is None,
    ensures
        inv.videos.len() == 0 ==> super::verdict(s, inv, c) == Err::<
            nodes::PairView,
            super::ErrorView,
        >(super::ErrorView::NoVideoNodes),
        inv.videos.len() > 0 && inv.serials.len() == 0 ==> super::verdict(s, inv, c) == Err::<
            nodes::PairView,
            super::ErrorView,
        >(super::ErrorView::NoSerialNodes),
{
}

/// Two given paths are taken as they are, with what the inventory knows of each: a path that it
/// does not know has no device, and then there is neither evidence nor a card.
pub proof fn two_given_paths_are_taken_with_what_is_known_of_them<S: Sysfs>(
    s: &S,
    inv: super::InventoryView,
    video: path::Spelled,
    serial: path::Spelled,
)
    ensures
        ({
            let c = super::ConstraintsView { video: Some(video), serial: Some(serial) };
            super::verdict(s, inv, c) matches Ok(p) && {
                &&& p.video.dev.path == video.path
                &&& p.serial.dev.path == serial.path
                &&& (forall|k: int|
                    0 <= k < inv.videos.len() ==> (#[trigger] inv.videos[k]).dev.path != video.path)
                    ==> p.video.dev == video && p.video.usb is None && p.evidence is None && p.audio
                    is Unknown
                &&& (forall|k: int|
                    0 <= k < inv.serials.len() ==> (#[trigger] inv.serials[k]).dev.path
                        != serial.path) ==> p.serial.dev == serial && p.serial.usb is None
                    && p.evidence is None
                &&& (exists|k: int|
                    0 <= k < inv.videos.len() && (#[trigger] inv.videos[k]).dev.path == video.path)
                    ==> inv.videos.contains(p.video)
                &&& (exists|k: int|
                    0 <= k < inv.serials.len() && (#[trigger] inv.serials[k]).dev.path
                        == serial.path) ==> inv.serials.contains(p.serial)
                &&& p.video.usb is Some && p.serial.usb is Some ==> p.evidence == super::joins(
                    s,
                    p.video.usb,
                    p.serial.usb,
                )
                &&& p.audio == nodes::audio_of(p.video.usb, inv.cards)
            }
        }),
{
    super::lemma_find_video(inv.videos, video.path);
    super::lemma_find_serial(inv.serials, serial.path);
    if exists|k: int|
        0 <= k < inv.videos.len() && (#[trigger] inv.videos[k]).dev.path == video.path {
        lemma_video_is_found(inv.videos, video.path);
    }
    if exists|k: int|
        0 <= k < inv.serials.len() && (#[trigger] inv.serials[k]).dev.path == serial.path {
        lemma_serial_is_found(inv.serials, serial.path);
    }
}

proof fn lemma_video_is_found(videos: Seq<nodes::VideoView>, dev: PathView)
    requires
        exists|k: int| 0 <= k < videos.len() && (#[trigger] videos[k]).dev.path == dev,
    ensures
        super::find_video_in(videos, dev) matches Some(v) && v.dev.path == dev && videos.contains(
            v,
        ),
    decreases videos.len(),
{
    super::lemma_find_video(videos, dev);
    let k = choose|k: int| 0 <= k < videos.len() && (#[trigger] videos[k]).dev.path == dev;
    if videos[0].dev.path != dev {
        assert(videos.drop_first()[k - 1].dev.path == dev);
        lemma_video_is_found(videos.drop_first(), dev);
    }
}

proof fn lemma_serial_is_found(serials: Seq<nodes::SerialView>, dev: PathView)
    requires
        exists|k: int| 0 <= k < serials.len() && (#[trigger] serials[k]).dev.path == dev,
    ensures
        super::find_serial_in(serials, dev) matches Some(t) && t.dev.path == dev
            && serials.contains(t),
    decreases serials.len(),
{
    super::lemma_find_serial(serials, dev);
    let k = choose|k: int| 0 <= k < serials.len() && (#[trigger] serials[k]).dev.path == dev;
    if serials[0].dev.path != dev {
        assert(serials.drop_first()[k - 1].dev.path == dev);
        lemma_serial_is_found(serials.drop_first(), dev);
    }
}

/// The pairs that are left by one given path: how many of them there are goes by the pairs that
/// have the path.
proof fn lemma_kept(
    pairs: Seq<nodes::PairView>,
    c: super::ConstraintsView,
    kind: super::NodeKind,
    dev: PathView,
    i: int,
    j: int,
)
    requires
        forall|p: nodes::PairView| has_given(p, c) <==> #[trigger] super::half(p, kind) == dev,
    ensures
        ({
            let kept = super::pairs_with(pairs, kind, dev);
            &&& 0 <= i < pairs.len() && has_given(pairs[i], c) && (forall|k: int|
                0 <= k < pairs.len() && k != i ==> !has_given(#[trigger] pairs[k], c)) ==> kept
                == seq![pairs[i]]
            &&& (forall|k: int| 0 <= k < pairs.len() ==> !has_given(#[trigger] pairs[k], c))
                ==> kept.len() == 0
            &&& 0 <= i < pairs.len() && has_given(pairs[i], c) ==> kept.len() >= 1
            &&& 0 <= i < j < pairs.len() && has_given(pairs[i], c) && has_given(pairs[j], c)
                ==> kept.len() >= 2
        }),
    decreases pairs.len(),
{
    let kept = super::pairs_with(pairs, kind, dev);
    if pairs.len() > 0 {
        let head = pairs.drop_last();
        lemma_kept(head, c, kind, dev, i, j);
        assert(forall|k: int| 0 <= k < head.len() ==> head[k] == pairs[k]);
        let last = pairs.len() - 1;
        assert(has_given(pairs[last], c) <==> super::half(pairs[last], kind) == dev);
        if forall|k: int| 0 <= k < pairs.len() ==> !has_given(#[trigger] pairs[k], c) {
            assert forall|k: int| 0 <= k < head.len() implies !has_given(#[trigger] head[k], c) by {
                assert(!has_given(pairs[k], c));
            }
            assert(!has_given(pairs[last], c));
        }
        if 0 <= i < pairs.len() && has_given(pairs[i], c) && (forall|k: int|
            0 <= k < pairs.len() && k != i ==> !has_given(#[trigger] pairs[k], c)) {
            if i == last {
                assert forall|k: int| 0 <= k < head.len() implies !has_given(
                    #[trigger] head[k],
                    c,
                ) by {
                    assert(!has_given(pairs[k], c));
                }
                assert(kept =~= seq![pairs[i]]);
            } else {
                assert forall|k: int| 0 <= k < head.len() && k != i implies !has_given(
                    #[trigger] head[k],
                    c,
                ) by {
                    assert(!has_given(pairs[k], c));
                }
                assert(!has_given(pairs[last], c));
            }
        }
    }
}

// ---- which nodes there are -----------------------------------------------------------------

/// A USB device is described by its own attributes: the two ids in hexadecimal, the place on the
/// bus in decimal, and the rest as it stands.
pub proof fn a_device_is_what_its_attributes_say<S: Sysfs>(
    s: &S,
    dir: path::Spelled,
    vid: u16,
    pid: u16,
    bus: u32,
    dev: u32,
    width: nat,
)
    requires
        s.attr(dir.path, "idVendor"@) == Some(text::zero_padded(text::numeral(vid as nat, 16), width)),
        s.attr(dir.path, "idProduct"@) == Some(text::zero_padded(text::numeral(pid as nat, 16), width)),
        s.attr(dir.path, "busnum"@) == Some(text::decimal(bus as nat)),
        s.attr(dir.path, "devnum"@) == Some(text::decimal(dev as nat)),
        dir.path.parts.len() > 0,
        dir.path.parts.last() != "."@,
        dir.path.parts.last() != ".."@,
    ensures
        topology::usb_at(s, dir) matches Some(u) && {
            &&& u.vid == vid && u.pid == pid
            &&& u.busnum == bus && u.devnum == dev
            &&& u.sysfs == dir
            &&& u.name == dir.path.parts.last()
            &&& u.product == s.attr(dir.path, "product"@)
            &&& u.serial == s.attr(dir.path, "serial"@)
            &&& u.speed == s.attr(dir.path, "speed"@)
        },
{
    reveal_strlit(".");
    reveal_strlit("..");
    assert("."@ =~= seq!['.']);
    assert(".."@ =~= seq!['.', '.']);
    lemma_hex_attr(vid as nat, width);
    lemma_hex_attr(pid as nat, width);
    lemma_decimal_attr(bus as nat);
    lemma_decimal_attr(dev as nat);
}

proof fn lemma_hex_attr(n: nat, width: nat)
    requires
        n <= 0xffff,
    ensures
        topology::hex16_value(text::zero_padded(text::numeral(n, 16), width)) == Some(n),
{
    text::a_number_is_read_back_as_it_was_written(n, 16, width, 0xffff);
    lemma_numeral_is_not_blank(n, 16);
    let plain = text::numeral(n, 16);
    let padded = text::zero_padded(plain, width);
    text::no_visible_ascii_is_white_space('0');
    assert(padded.len() > 0);
    assert(!text::is_blank(padded[0])) by {
        if plain.len() >= width {
            assert(padded[0] == plain[0]);
        }
    }
    assert(padded.last() == plain.last());
    assert(text::trimmed_front(padded) == padded);
    assert(text::trimmed_back(padded) == padded);
}

proof fn lemma_numeral_is_not_blank(n: nat, radix: nat)
    requires
        2 <= radix <= 16,
    ensures
        text::numeral(n, radix).len() > 0,
        forall|i: int|
            0 <= i < text::numeral(n, radix).len() ==> !text::is_blank(
                #[trigger] text::numeral(n, radix)[i],
            ),
    decreases n,
{
    if n >= radix {
        assert(n / radix < n && n % radix < radix) by (nonlinear_arith)
            requires
                n >= radix,
                radix >= 2,
        ;
        lemma_numeral_is_not_blank(n / radix, radix);
    }
}

proof fn lemma_decimal_attr(n: nat)
    requires
        n <= 0xffff_ffff,
    ensures
        topology::number_or_zero(Some(text::decimal(n))) == n,
{
    text::a_number_is_read_back_as_it_was_written(n, 10, 0, 0xffff_ffff);
}

/// The first `n` components of a path.
pub open spec fn upper(p: PathView, n: int) -> PathView {
    PathView { parts: p.parts.take(n), ..p }
}

/// A class entry belongs to the nearest USB device above the directory that its `device` link
/// leads to: one that has an `idVendor`, where nothing on the way up to it has. Where nothing above
/// has one, it belongs to none.
pub proof fn a_node_belongs_to_the_nearest_device_above<S: Sysfs>(s: &S, dir: path::Spelled, n: int)
    requires
        0 <= n <= dir.path.parts.len(),
        forall|k: int|
            n < k <= dir.path.parts.len() ==> !s.present(
                (#[trigger] upper(dir.path, k)).child("idVendor"@),
            ),
    ensures
        n > 0 && s.present(upper(dir.path, n).child("idVendor"@)) ==> (topology::device_dir(
            s,
            dir,
        ) matches Some(d) && d.path == upper(dir.path, n) && (n == dir.path.parts.len() ==> d
            == dir)),
        n == 0 && !dir.path.rooted && dir.path.parts.len() > 0 ==> topology::device_dir(s, dir)
            is None,
    decreases dir.path.parts.len() - n,
{
    let len = dir.path.parts.len() as int;
    assert(dir.path.parts.take(len) =~= dir.path.parts);
    assert(upper(dir.path, len) == dir.path);
    if n < len {
        let up = dir.path.parent()->0;
        assert(up.parts.take(n) =~= dir.path.parts.take(n));
        assert forall|k: int| n < k <= up.parts.len() implies !s.present(
            (#[trigger] upper(up, k)).child("idVendor"@),
        ) by {
            assert(up.parts.take(k) =~= dir.path.parts.take(k));
            assert(!s.present(upper(dir.path, k).child("idVendor"@)));
        }
        a_node_belongs_to_the_nearest_device_above(s, path::plain(up), n);
    }
}

/// The device of a class entry is read where the entry's `device` link leads.
pub proof fn a_class_entry_leads_to_its_device<S: Sysfs>(s: &S, entry: PathView)
    ensures
        s.link(entry.child("device"@)) is None ==> topology::usb_of(s, entry) is None,
        s.link(entry.child("device"@)) matches Some(dir) ==> (topology::device_dir(s, dir)
            is None ==> topology::usb_of(s, entry) is None) && (topology::device_dir(
            s,
            dir,
        ) matches Some(d) ==> topology::usb_of(s, entry) == topology::usb_at(s, d)),
{
}

/// The device node of an entry has the entry's name below `/dev`.
pub proof fn a_node_is_named_after_its_entry(name: Seq<char>)
    ensures
        nodes::dev_node(name).text == "/dev/"@ + name,
        nodes::dev_node(name).path.rooted,
        nodes::dev_node(name).path.parts == seq!["dev"@, name],
{
    reveal_strlit("/dev");
    reveal_strlit("/dev/");
    reveal_strlit("dev");
    let s = "/dev"@;
    assert(s =~= seq!['/', 'd', 'e', 'v']);
    assert(s.drop_last() =~= seq!['/', 'd', 'e']);
    assert(s.drop_last().drop_last() =~= seq!['/', 'd']);
    assert(s.drop_last().drop_last().drop_last() =~= seq!['/']);
    assert(s.drop_last().drop_last().drop_last().drop_last() =~= seq![]);
    reveal_with_fuel(path::split, 5);
    assert(path::split(s).piece =~= "dev"@);
    assert(path::split(s).parts =~= seq![]);
    assert("dev"@ != seq!['.']) by {
        assert("dev"@.len() == 3);
    }
    assert(path::parsed(s).parts =~= seq!["dev"@]);
    let p = path::parsed(s).child(name);
    assert(p.parts =~= seq!["dev"@, name]);
    reveal_with_fuel(path::joined, 3);
    assert(p.parts.drop_last() =~= seq!["dev"@]);
    assert(path::joined(p.parts) =~= "dev"@.push('/') + name);
    assert(p.text() =~= "/dev/"@ + name);
}

/// The nodes of a class are its entries with the right beginning that belong to a USB device: each
/// of them, in their order, under its own name, and nothing else.
pub proof fn every_usb_entry_of_a_class_is_a_node<S: Sysfs>(
    s: &S,
    entries: Seq<path::Spelled>,
    prefix: Seq<char>,
    i: int,
)
    requires
        0 <= i < entries.len(),
        entries[i].path.file_name() matches Some(name) && name.len() >= prefix.len() && name.take(
            prefix.len() as int,
        ) == prefix,
        topology::usb_of(s, entries[i].path) is Some,
    ensures
        nodes::class_nodes(s, entries, prefix).contains(
            (
                nodes::dev_node(entries[i].path.parts.last()),
                topology::usb_of(s, entries[i].path)->0,
            ),
        ),
    decreases entries.len(),
{
    let all = nodes::class_nodes(s, entries, prefix);
    let rest = nodes::class_nodes(s, entries.drop_last(), prefix);
    let want = (
        nodes::dev_node(entries[i].path.parts.last()),
        topology::usb_of(s, entries[i].path)->0,
    );
    if i == entries.len() - 1 {
        assert(all[all.len() - 1] == want);
    } else {
        every_usb_entry_of_a_class_is_a_node(s, entries.drop_last(), prefix, i);
        let k = choose|k: int| 0 <= k < rest.len() && rest[k] == want;
        assert(all[k] == want);
    }
}

/// And every node is such an entry.
pub proof fn every_node_is_a_usb_entry_of_its_class<S: Sysfs>(
    s: &S,
    entries: Seq<path::Spelled>,
    prefix: Seq<char>,
    k: int,
)
    requires
        0 <= k < nodes::class_nodes(s, entries, prefix).len(),
    ensures
        exists|i: int|
            #![trigger entries[i]]
            0 <= i < entries.len() && entries[i].path.parts.len() > 0
                && entries[i].path.parts.last().len() >= prefix.len()
                && entries[i].path.parts.last().take(prefix.len() as int) == prefix
                && topology::usb_of(s, entries[i].path) == Some(
                nodes::class_nodes(s, entries, prefix)[k].1,
            ) && nodes::class_nodes(s, entries, prefix)[k].0 == nodes::dev_node(
                entries[i].path.parts.last(),
            ),
    decreases entries.len(),
{
    let rest = nodes::class_nodes(s, entries.drop_last(), prefix);
    let all = nodes::class_nodes(s, entries, prefix);
    if k < rest.len() {
        every_node_is_a_usb_entry_of_its_class(s, entries.drop_last(), prefix, k);
        assert(all[k] == rest[k]);
        let i = choose|i: int|
            #![trigger entries.drop_last()[i]]
            0 <= i < entries.drop_last().len() && entries.drop_last()[i].path.parts.len() > 0
                && entries.drop_last()[i].path.parts.last().len() >= prefix.len()
                && entries.drop_last()[i].path.parts.last().take(prefix.len() as int) == prefix
                && topology::usb_of(s, entries.drop_last()[i].path) == Some(rest[k].1)
                && rest[k].0 == nodes::dev_node(entries.drop_last()[i].path.parts.last());
        assert(entries[i] == entries.drop_last()[i]);
    } else {
        assert(entries[entries.len() - 1] == entries.last());
    }
}

/// Video nodes are the `video` entries of `/class/video4linux` and serial nodes the `ttyACM`
/// entries of `/class/tty`. Nothing is known of a video node before it is asked.
pub proof fn nodes_come_from_their_own_class<S: Sysfs>(s: &S, i: int)
    ensures
        nodes::videos_in(s).len() == nodes::class_nodes(
            s,
            s.entries(path::parsed("/class/video4linux"@)),
            "video"@,
        ).len(),
        0 <= i < nodes::videos_in(s).len() ==> ({
            let v = nodes::videos_in(s)[i];
            let found = nodes::class_nodes(
                s,
                s.entries(path::parsed("/class/video4linux"@)),
                "video"@,
            )[i];
            v.dev == found.0 && v.usb == Some(found.1) && v.is_capture is None && v.probe_error
                is None && !v.probed
        }),
        nodes::serials_in(s).len() == nodes::class_nodes(
            s,
            s.entries(path::parsed("/class/tty"@)),
            "ttyACM"@,
        ).len(),
        0 <= i < nodes::serials_in(s).len() ==> ({
            let t = nodes::serials_in(s)[i];
            let found = nodes::class_nodes(
                s,
                s.entries(path::parsed("/class/tty"@)),
                "ttyACM"@,
            )[i];
            t.dev == found.0 && t.usb == Some(found.1)
        }),
{
}

/// A card is an entry `card` and a number, and the number is the one it is opened by.
pub proof fn a_card_is_opened_by_the_number_in_its_name<S: Sysfs>(
    s: &S,
    entry: path::Spelled,
    n: u32,
)
    requires
        entry.path.parts.len() > 0,
        entry.path.parts.last() == "card"@ + text::decimal(n as nat),
    ensures
        nodes::card_at(s, entry) matches Some(card) && card.name == "card"@ + text::decimal(
            n as nat,
        ) && card.id == s.attr(entry.path, "id"@) && card.usb == topology::usb_of(s, entry.path)
            && nodes::alsa_name(card.name) == Some("hw:"@ + text::decimal(n as nat)),
{
    let name = "card"@ + text::decimal(n as nat);
    reveal_strlit("card");
    assert(name.take(4) =~= "card"@);
    assert(name.skip(4) =~= text::decimal(n as nat));
    text::a_number_is_read_back_as_it_was_written(n as nat, 10, 0, 0xffff_ffff);
    assert(name != seq!['.'] && name != seq!['.', '.']) by {
        assert(name[0] == 'c');
    }
}

/// The other entries of the sound class are no cards.
pub proof fn what_has_no_number_is_no_card<S: Sysfs>(s: &S, entry: path::Spelled, i: int)
    requires
        entry.path.parts.len() > 0,
        entry.path.parts.last().len() < 4 || entry.path.parts.last().take(4) != "card"@
            || entry.path.parts.last().len() == 4 || (5 <= i < entry.path.parts.last().len() && !(
        '0' <= entry.path.parts.last()[i] <= '9')),
    ensures
        nodes::card_at(s, entry) is None,
{
    reveal_strlit("card");
    let name = entry.path.parts.last();
    if name.len() >= 4 && name.take(4) == "card"@ {
        let rest = name.skip(4);
        if 5 <= i < name.len() && !('0' <= name[i] <= '9') {
            text::only_digits_make_a_number(rest, 10, 0xffff_ffff, i - 4);
        } else {
            assert(rest =~= seq![]);
        }
    }
}

/// Every entry of the sound class that is a card is among the cards.
pub proof fn every_card_is_listed<S: Sysfs>(s: &S, entries: Seq<path::Spelled>, i: int)
    requires
        0 <= i < entries.len(),
        nodes::card_at(s, entries[i]) is Some,
    ensures
        nodes::cards_among(s, entries).contains(nodes::card_at(s, entries[i])->0),
        nodes::cards_in(s) == nodes::cards_among(s, s.entries(path::parsed("/class/sound"@))),
    decreases entries.len(),
{
    let all = nodes::cards_among(s, entries);
    let rest = nodes::cards_among(s, entries.drop_last());
    let want = nodes::card_at(s, entries[i])->0;
    if i == entries.len() - 1 {
        assert(all[all.len() - 1] == want);
    } else {
        every_card_is_listed(s, entries.drop_last(), i);
        let k = choose|k: int| 0 <= k < rest.len() && rest[k] == want;
        assert(all[k] == want);
    }
}

// ---- after a reconnect ---------------------------------------------------------------------

/// A node that was not given is looked for again on every attempt, and what is opened is its half
/// of the pair that discovery selects now: the video node for one, the serial node for the other.
/// What discovery refuses is refused.
pub proof fn a_reconnect_opens_the_nodes_own_half<S: Sysfs>(
    r: NodeResolver,
    s: &S,
    answers: Seq<Result<bool, super::probe::FailureView>>,
)
    ensures
        r.node() == super::NodeKind::Video && r.given().video is None || r.node()
            == super::NodeKind::Serial && r.given().serial is None ==> match (
            reopen::attempt(r, s, answers),
            super::verdict(s, super::inventory_of(s, answers), r.given()),
        ) {
            (Ok(now), Ok(p)) => now.discovered && now.evidence == p.evidence && now.path == (if r.node()
                == super::NodeKind::Video {
                p.video.dev
            } else {
                p.serial.dev
            }),
            (Err(e), Err(f)) => e == f,
            _ => false,
        },
        r.node() == super::NodeKind::Video && r.given().video is Some ==> (reopen::attempt(
            r,
            s,
            answers,
        ) matches Ok(now) && now.path == r.given().video->0 && !now.discovered && now.evidence
            is None),
        r.node() == super::NodeKind::Serial && r.given().serial is Some ==> (reopen::attempt(
            r,
            s,
            answers,
        ) matches Ok(now) && now.path == r.given().serial->0 && !now.discovered && now.evidence
            is None),
{
}

/// A node has moved where it was opened before under another path, and only there; the line then
/// names both paths. It always names the one that is opened.
pub proof fn a_move_is_told_with_both_names(
    kind: super::NodeKind,
    r: reopen::ResolvedView,
    previous: Option<path::Spelled>,
)
    ensures
        reopen::node_moved(r, None) == false,
        previous matches Some(p) ==> (reopen::node_moved(r, previous) <==> p.path != r.path.path),
        text::mentions(reopen::resolution_words(kind, r, previous), r.path.text),
        previous is Some && previous->0.path != r.path.path ==> text::mentions(
            reopen::resolution_words(kind, r, previous),
            previous->0.text,
        ),
{
    reveal(text::mentions);
    let words = reopen::resolution_words(kind, r, previous);
    if reopen::node_moved(r, previous) {
        let a = kind.words() + " node moved: "@;
        let b = a + previous->0.text;
        let c = b + " is now "@;
        assert(words.subrange(a.len() as int, a.len() as int + previous->0.text.len())
            =~= previous->0.text);
        assert(words.subrange(c.len() as int, c.len() as int + r.path.text.len()) =~= r.path.text);
    } else {
        let a = kind.words() + " node for this attempt: "@;
        assert(words.subrange(a.len() as int, a.len() as int + r.path.text.len()) =~= r.path.text);
    }
}

/// The card that is resolved is on the capture node's own device, as it is now, and is opened as
/// `hw:` and its number; without the device, and with no card or several on it, there is none.
pub proof fn a_card_is_found_again_on_the_capture_device<S: Sysfs>(
    s: &S,
    usb: path::Spelled,
    i: int,
)
    ensures
        reopen::card_for(s, usb) matches Ok(found) ==> (topology::usb_at(s, usb) matches Some(
            device,
        ) && on_device(device, found.card) && nodes::cards_in(s).contains(found.card)),
        topology::usb_at(s, usb) is None ==> reopen::card_for(s, usb) is Err,
        topology::usb_at(s, usb) is Some && 0 <= i < nodes::cards_in(s).len() && on_device(
            topology::usb_at(s, usb)->0,
            nodes::cards_in(s)[i],
        ) && (forall|j: int|
            0 <= j < nodes::cards_in(s).len() && j != i ==> !on_device(
                topology::usb_at(s, usb)->0,
                #[trigger] nodes::cards_in(s)[j],
            )) ==> (reopen::card_for(s, usb) matches Ok(found) && found.card == nodes::cards_in(
            s,
        )[i]),
        reopen::card_for(s, usb) matches Ok(found) ==> nodes::alsa_name(found.card.name) == Some(
            found.device,
        ),
{
    reopen::the_card_is_the_one_on_the_capture_device(s, usb);
    if let Some(device) = topology::usb_at(s, usb) {
        if 0 <= i < nodes::cards_in(s).len() {
            a_card_pairs_on_the_place_of_the_video_node(device, nodes::cards_in(s), i);
        }
    }
}

// ---- what is known of a node ---------------------------------------------------------------

/// An answer is noted as what it is: a node that said whether it captures is known to, a failed
/// question is noted as the failure, and a node that was asked counts as asked either way.
pub proof fn an_answer_is_noted_as_what_it_is(
    v: nodes::VideoView,
    answer: Result<bool, super::probe::FailureView>,
)
    ensures
        ({
            let now = super::answered(v, answer);
            &&& now.probed
            &&& now.dev == v.dev && now.usb == v.usb
            &&& answer is Ok ==> now.is_capture == Some(answer->Ok_0) && now.probe_error
                == v.probe_error
            &&& answer is Err ==> now.probe_error == Some(answer->Err_0) && now.is_capture
                == v.is_capture
        }),
{
}

/// Two given paths that discovery does not know are taken as they are, with nothing known of them:
/// nobody was asked, no device is theirs, and no card can be matched.
pub proof fn nothing_is_made_up_for_an_unknown_path<S: Sysfs>(
    s: &S,
    inv: super::InventoryView,
    video: path::Spelled,
    serial: path::Spelled,
)
    requires
        forall|i: int| 0 <= i < inv.videos.len() ==> (#[trigger] inv.videos[i]).dev.path != video.path,
        forall|i: int|
            0 <= i < inv.serials.len() ==> (#[trigger] inv.serials[i]).dev.path != serial.path,
    ensures
        ({
            let p = super::explicit_of(s, inv, video, serial);
            &&& p.video.dev == video && p.serial.dev == serial
            &&& p.video.usb is None && p.serial.usb is None
            &&& p.video.is_capture is None && p.video.probe_error is None && !p.video.probed
            &&& p.evidence is None
            &&& p.audio == AudioView::Unknown
        }),
{
    super::lemma_find_video(inv.videos, video.path);
    super::lemma_find_serial(inv.serials, serial.path);
}

/// A number that is missing or that is none is zero, which is no device's number; one that is there
/// is read as it was written.
pub proof fn a_number_that_is_missing_is_zero(t: Seq<char>, n: nat)
    ensures
        topology::number_or_zero(None) == 0,
        text::unsigned_value(t, 10, 0xffff_ffff) is None ==> topology::number_or_zero(Some(t)) == 0,
        n <= 0xffff_ffff ==> topology::number_or_zero(Some(text::zero_padded(text::numeral(n, 10), 0)))
            == n,
{
    text::a_number_is_read_back_as_it_was_written(n, 10, 0, 0xffff_ffff);
}

/// A card has moved where another one was opened before; the first one that is opened has not.
pub proof fn a_card_has_moved_where_another_was_opened(
    opener: reopen::DiscoveringCardOpener,
    target: reopen::CardTarget,
    found: reopen::ResolvedCardView,
)
    requires
        opener.is_target(target, found),
    ensures
        target.device@ == found.device,
        opener.last_opened() is None ==> !target.notice.moved,
        opener.last_opened() == Some(found.device) ==> !target.notice.moved,
        opener.last_opened() is Some && opener.last_opened()->0 != found.device
            ==> target.notice.moved,
{
}

} // verus!
