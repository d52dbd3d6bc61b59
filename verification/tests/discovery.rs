//! Discovery and rediscovery over trees held in memory.

use std::cell::RefCell;
use std::collections::{HashMap, HashSet};
use std::sync::atomic::AtomicBool;
use std::sync::Arc;

use nanokvm::audio::AudioError;
use nanokvm::capture::{CaptureError, CompressedFrame, FrameSource};
use nanokvm::cli::devices::{self, probe_targets};
use nanokvm::discovery::probe::{delivers_frames, NOT_PROBED};
use nanokvm::discovery::reopen::{LinkTarget, VideoOpening};
use nanokvm::discovery::sysfs::listed;
use nanokvm::discovery::testing::{MapProbe, OverrideSysfs};
use nanokvm::discovery::topology::{evidence_for, port_dir_of, same_device};
use nanokvm::discovery::{
    discover, inventory, AudioPairing, CardResolver, Constraints, DiscoveringCardOpener,
    DiscoveringLinkSource, DiscoveringOpener, DiscoveryError, Evidence, Mode, NoProbe, NodeKind,
    NodeProbe, NodeResolver, RealSysfs, Sysfs, UsbDevice, INTERNAL_HUB_ID, SERIAL_ID, VIDEO_ID,
};
use nanokvm::names::{is_before, sorted};
use nanokvm::path::NodePath;

/// Device directories, spelled as the class links resolve to them.
const BUS: &str = "/devices/pci0000:00/0000:00:08.1/0000:0b:00.3/usb3/3-2";
const BUS4: &str = "/devices/pci0000:00/0000:00:08.1/0000:0b:00.3/usb4/4-2";

/// The capture device of the first dongle: the one `/dev/video4` and `card8` are interfaces of.
const DESK_CAPTURE_USB: &str =
    "/devices/pci0000:00/0000:00:08.1/0000:0b:00.3/usb3/3-2/3-2.2/3-2.2.2";

fn path(text: &str) -> NodePath {
    NodePath::new(text)
}

#[derive(Clone, Default)]
struct Tree {
    attrs: HashMap<(String, String), String>,
    links: HashMap<String, String>,
    dirs: HashMap<String, Vec<String>>,
}

impl Tree {
    fn put_attr(&mut self, dir: &str, name: &str, value: &str) {
        self.attrs
            .insert((dir.to_string(), name.to_string()), value.to_string());
    }

    fn put_link(&mut self, from: &str, to: &str) {
        self.links.insert(from.to_string(), to.to_string());
    }

    fn put_entry(&mut self, dir: &str, name: &str) {
        let names = self.dirs.entry(dir.to_string()).or_default();
        names.push(name.to_string());
        names.sort();
    }

    fn device(&mut self, dir: &str, id: (u16, u16), bus: u32, number: u32) {
        self.put_attr(dir, "idVendor", &format!("{:04x}", id.0));
        self.put_attr(dir, "idProduct", &format!("{:04x}", id.1));
        self.put_attr(dir, "busnum", &bus.to_string());
        self.put_attr(dir, "devnum", &number.to_string());
        self.put_attr(dir, "speed", "480");
    }

    /// A class entry whose `device` link leads to an interface of `device`.
    fn node(&mut self, class: &str, name: &str, device: &str, interface: &str) {
        let dir = format!("/class/{class}");
        self.put_entry(&dir, name);
        let leaf = device.rsplit('/').next().expect("a name");
        self.put_link(
            &format!("{dir}/{name}/device"),
            &format!("{device}/{leaf}:{interface}"),
        );
    }

    fn card(&mut self, name: &str, id: &str, device: &str) {
        self.node("sound", name, device, "1.2");
        let leaf = device.rsplit('/').next().expect("a name");
        self.put_link(
            &format!("/class/sound/{name}"),
            &format!("{device}/{leaf}:1.2/sound/{name}"),
        );
        self.put_attr(&format!("/class/sound/{name}"), "id", id);
    }
}

impl Sysfs for Tree {
    fn read_attr(&self, dir: &NodePath, name: &str) -> Option<String> {
        self.attrs
            .get(&(dir.text().to_string(), name.to_string()))
            .cloned()
    }

    fn read_link(&self, path: &NodePath) -> Option<NodePath> {
        self.links.get(path.text()).map(|p| NodePath::new(p))
    }

    fn list_dir(&self, dir: &NodePath) -> Vec<NodePath> {
        match self.dirs.get(dir.text()) {
            Some(names) => names.iter().map(|n| dir.child(n)).collect(),
            None => Vec::new(),
        }
    }

    fn exists_at(&self, path: &NodePath) -> bool {
        let text = path.text();
        if self.links.contains_key(text) || self.dirs.contains_key(text) {
            return true;
        }
        match text.rsplit_once('/') {
            Some((dir, name)) => self
                .attrs
                .contains_key(&(dir.to_string(), name.to_string())),
            None => false,
        }
    }
}

/// One dongle on a port of the external hub, with an unrelated serial device and a sound card that
/// is no USB device beside it.
fn desk() -> Tree {
    let mut t = Tree::default();
    t.device(BUS, (0x05e3, 0x0610), 3, 2);
    let hub = format!("{BUS}/3-2.2");
    t.device(&hub, INTERNAL_HUB_ID, 3, 31);
    let video = format!("{hub}/3-2.2.2");
    t.device(&video, VIDEO_ID, 3, 33);
    t.put_attr(&video, "product", "USB2 Video");
    let serial = format!("{hub}/3-2.2.4");
    t.device(&serial, SERIAL_ID, 3, 34);
    let stranger = format!("{BUS}/3-2.1");
    t.device(&stranger, (0x2341, 0x0043), 3, 20);

    t.node("video4linux", "video4", &video, "1.0");
    t.node("video4linux", "video5", &video, "1.0");
    t.node("tty", "ttyACM0", &stranger, "1.0");
    t.node("tty", "ttyACM1", &serial, "1.0");
    t.put_entry("/class/tty", "tty0");
    t.card("card8", "Video", &video);
    t.put_entry("/class/sound", "card0");
    t.put_link("/class/sound/card0", "/devices/pci0000:00/0000:00:1f.3/sound/card0");
    t.put_link("/class/sound/card0/device", "/devices/pci0000:00/0000:00:1f.3");
    t.put_entry("/class/sound", "controlC8");
    t.put_entry("/class/sound", "timer");
    t
}

/// The desk and a second identical dongle, with an ordinary USB sound card on a free port of the
/// second one's own hub.
fn two_dongles() -> Tree {
    let mut t = desk();
    let hub = format!("{BUS}/3-2.3");
    t.device(&hub, INTERNAL_HUB_ID, 3, 41);
    let video = format!("{hub}/3-2.3.2");
    t.device(&video, VIDEO_ID, 3, 43);
    let serial = format!("{hub}/3-2.3.4");
    t.device(&serial, SERIAL_ID, 3, 44);
    let headset = format!("{hub}/3-2.3.1");
    t.device(&headset, (0x046d, 0x0a44), 3, 45);
    t.node("video4linux", "video6", &video, "1.0");
    t.node("video4linux", "video7", &video, "1.0");
    t.node("tty", "ttyACM2", &serial, "1.0");
    t.card("card9", "Headset", &headset);
    t.card("card10", "Video", &video);
    t
}

/// A dongle on a SuperSpeed port: video on one bus, serial on its companion, no sound card.
fn superspeed() -> Tree {
    let mut t = Tree::default();
    let video = format!("{BUS4}/4-2.2");
    t.device(&video, VIDEO_ID, 4, 5);
    let hub = format!("{BUS}/3-2.2");
    t.device(&hub, INTERNAL_HUB_ID, 3, 31);
    let serial = format!("{hub}/3-2.2.4");
    t.device(&serial, SERIAL_ID, 3, 34);
    t.node("video4linux", "video4", &video, "1.0");
    t.node("tty", "ttyACM1", &serial, "1.0");
    let port = format!("{BUS4}/4-2:1.0/4-2-port2");
    let peer = format!("{BUS}/3-2:1.0/3-2-port2");
    t.put_link(&format!("{port}/peer"), &peer);
    t.put_link(&format!("{peer}/device"), &hub);
    t
}

/// A tree that fails the test if it is read at all.
struct ForbiddenSysfs;

impl Sysfs for ForbiddenSysfs {
    fn read_attr(&self, dir: &NodePath, name: &str) -> Option<String> {
        panic!("discovery read {}/{name} for an explicit path", dir.text());
    }
    fn read_link(&self, path: &NodePath) -> Option<NodePath> {
        panic!("discovery resolved {} for an explicit path", path.text());
    }
    fn list_dir(&self, dir: &NodePath) -> Vec<NodePath> {
        panic!("discovery listed {} for an explicit path", dir.text());
    }
    fn exists_at(&self, path: &NodePath) -> bool {
        panic!("discovery looked for {} for an explicit path", path.text());
    }
}

/// The tree with the dongle other than `hub` relabelled, so that exactly one pair is left.
fn only_dongle_under(hub: &str) -> OverrideSysfs<Tree> {
    let other = if hub.ends_with("3-2.2") {
        format!("{BUS}/3-2.3")
    } else {
        format!("{BUS}/3-2.2")
    };
    OverrideSysfs::new(two_dongles()).set(&other, "idProduct", "0102")
}

fn probe() -> MapProbe {
    MapProbe::new()
        .capture("/dev/video4", true)
        .capture("/dev/video5", false)
        .capture("/dev/video6", true)
        .capture("/dev/video7", false)
        .default_capture(false)
}

fn constraints(video: Option<&str>, serial: Option<&str>) -> Constraints {
    Constraints {
        video: video.map(NodePath::new),
        serial: serial.map(NodePath::new),
    }
}

fn texts(paths: &[NodePath]) -> Vec<String> {
    paths.iter().map(|p| p.text().to_string()).collect()
}

#[test]
fn port_dir_of_a_device_on_an_external_hub() {
    let p = port_dir_of(&path("/devices/pci/usb3/3-2/3-2.2/3-2.2.2")).expect("a port");
    assert_eq!(p.text(), "/devices/pci/usb3/3-2/3-2.2/3-2.2:1.0/3-2.2-port2");
}

#[test]
fn port_dir_of_a_device_on_a_root_hub() {
    let p = port_dir_of(&path("/devices/pci/usb3/3-2")).expect("a port");
    assert_eq!(p.text(), "/devices/pci/usb3/3-0:1.0/usb3-port2");
}

#[test]
fn port_dir_of_a_non_usb_name_is_none() {
    assert!(port_dir_of(&path("/devices/pci/platform")).is_none());
}

#[test]
fn every_evidence_message_opens_with_its_kind() {
    let hub = UsbDevice {
        sysfs: path("/devices/3-2.2"),
        name: "3-2.2".to_string(),
        vid: INTERNAL_HUB_ID.0,
        pid: INTERNAL_HUB_ID.1,
        product: None,
        serial: None,
        speed: None,
        busnum: 3,
        devnum: 31,
    };
    for evidence in [
        Evidence::SameDevice,
        Evidence::PortPeer {
            video_port: "4-2-port2".to_string(),
            peer_port: "3-2-port2".to_string(),
        },
        Evidence::InternalHub { hub },
    ] {
        let text = evidence.text();
        assert!(
            text.starts_with(evidence.kind()),
            "{text:?} must open with {:?}",
            evidence.kind()
        );
        if evidence.is_proof() {
            assert!(text.ends_with("proof"), "{text:?}");
        } else {
            assert!(!text.contains("proof"), "{text:?}");
            assert!(text.contains("degraded"), "{text:?}");
        }
    }
}

#[test]
fn same_device_ignores_a_zero_devnum() {
    let make = |name: &str, devnum: u32| UsbDevice {
        sysfs: path("/devices").child(name),
        name: name.to_string(),
        vid: 1,
        pid: 2,
        product: None,
        serial: None,
        speed: None,
        busnum: 3,
        devnum,
    };
    assert!(!same_device(&make("a", 0), &make("b", 0)));
    assert!(same_device(&make("a", 7), &make("b", 7)));
}

#[test]
fn an_explicit_path_is_reopened_without_consulting_discovery() {
    for kind in [NodeKind::Video, NodeKind::Serial] {
        let resolver = NodeResolver::new(
            kind,
            constraints(Some("/dev/video9"), Some("/dev/ttyACM7")),
        );
        assert!(matches!(resolver.mode(), Mode::Explicit(_)));
        for attempt in 0..2 {
            let mut probe = MapProbe::new();
            let r = resolver
                .resolve(&ForbiddenSysfs, &mut probe)
                .expect("an explicit path cannot fail");
            let expected = match kind {
                NodeKind::Video => "/dev/video9",
                NodeKind::Serial => "/dev/ttyACM7",
            };
            assert_eq!(r.path.text(), expected, "attempt {attempt}");
            assert!(!r.discovered, "discovery must not have been consulted");
            assert!(r.evidence.is_none());
            assert!(probe.asked().is_empty());
        }
    }
}

#[test]
fn a_discovered_node_that_comes_back_renamed_is_found_again() {
    let video = NodeResolver::new(NodeKind::Video, constraints(None, None));
    let serial = NodeResolver::new(NodeKind::Serial, constraints(None, None));

    let before = only_dongle_under(&format!("{BUS}/3-2.2"));
    assert_eq!(
        video.resolve(&before, &mut probe()).expect("one pair").path.text(),
        "/dev/video4"
    );
    assert_eq!(
        serial.resolve(&before, &mut probe()).expect("one pair").path.text(),
        "/dev/ttyACM1"
    );

    let now = only_dongle_under(&format!("{BUS}/3-2.3"));
    let after = video
        .resolve(&now, &mut probe())
        .expect("one pair after the replug");
    assert_eq!(after.path.text(), "/dev/video6");
    assert!(after.discovered);
    assert!(
        after.evidence.is_some(),
        "a rediscovered node carries the evidence that chose it"
    );
    assert_eq!(
        serial
            .resolve(&now, &mut probe())
            .expect("one pair after the replug")
            .path
            .text(),
        "/dev/ttyACM2"
    );
}

#[test]
fn an_explicit_video_still_re_infers_the_serial_node_on_every_attempt() {
    let serial = NodeResolver::new(NodeKind::Serial, constraints(Some("/dev/video6"), None));
    assert_eq!(
        serial
            .resolve(&two_dongles(), &mut probe())
            .expect("the pair containing video6")
            .path
            .text(),
        "/dev/ttyACM2"
    );
}

#[test]
fn an_ambiguous_inventory_on_reopen_is_an_error_rather_than_a_guess() {
    let resolver = NodeResolver::new(NodeKind::Serial, constraints(None, None));
    let err = resolver
        .resolve(&two_dongles(), &mut probe())
        .expect_err("two dongles cannot be narrowed to one");
    assert!(
        matches!(err, DiscoveryError::Ambiguous(_)),
        "expected Ambiguous, got {err:?}"
    );
    let text = err.text();
    assert!(text.contains("--serial"), "{text}");
}

#[test]
fn a_dongle_that_is_not_back_yet_is_an_error_the_reopen_loop_can_retry() {
    let sysfs = OverrideSysfs::new(two_dongles())
        .set(&format!("{BUS}/3-2.2"), "idProduct", "0102")
        .set(&format!("{BUS}/3-2.3"), "idProduct", "0102");
    let resolver = NodeResolver::new(NodeKind::Video, constraints(None, None));
    let err = resolver
        .resolve(&sysfs, &mut probe())
        .expect_err("nothing to pair");
    assert!(
        matches!(err, DiscoveryError::NoPair(_)),
        "expected NoPair, got {err:?}"
    );
}

struct Dummy;

impl FrameSource for Dummy {
    fn next_frame(&mut self) -> Result<CompressedFrame, CaptureError> {
        Err(CaptureError::Timeout(0))
    }
    fn describe(&self) -> String {
        "the source main opened".to_string()
    }
}

#[test]
fn an_opener_hands_over_the_source_main_opened_before_it_resolves_anything() {
    let mut opener = DiscoveringOpener::with_open_source(
        NodeResolver::new(NodeKind::Video, constraints(None, None)),
        Dummy,
        path("/dev/video4"),
        1920,
        1080,
        60,
    );
    let first = match opener
        .open(&ForbiddenSysfs, &mut MapProbe::new())
        .expect("the already-open source")
    {
        VideoOpening::Ready(source) => source,
        VideoOpening::Node { .. } => panic!("the source was in hand"),
    };
    assert_eq!(first.describe(), "the source main opened");
    assert!(
        opener.describe().contains("/dev/video4"),
        "describe names the node in hand: {}",
        opener.describe()
    );
}

#[test]
fn a_source_in_hand_is_dropped_by_a_change_of_format() {
    let mut opener = DiscoveringOpener::with_open_source(
        NodeResolver::new(NodeKind::Video, constraints(None, None)),
        Dummy,
        path("/dev/video4"),
        1920,
        1080,
        60,
    );
    assert!(opener.set_format(1280, 720, 30));
    match opener.open(&desk(), &mut probe()).expect("one pair") {
        VideoOpening::Ready(_) => panic!("the source streams at the old size"),
        VideoOpening::Node { opener: node, notice } => {
            assert_eq!(node.path(), "/dev/video4");
            assert_eq!((node.width, node.height, node.fps), (1280, 720, 30));
            assert!(!notice.moved);
            assert!(
                notice
                    .text
                    .starts_with("video node for this attempt: /dev/video4 (rediscovered — "),
                "{}",
                notice.text
            );
        }
    }
    assert_eq!(
        opener.describe(),
        "V4L2 /dev/video4 MJPG 1280x720 @30 fps (node rediscovered on each reopen)"
    );
}

#[test]
fn a_video_node_that_moved_is_said_to_have_moved() {
    let mut opener: DiscoveringOpener<Dummy> = DiscoveringOpener::new(
        NodeResolver::new(NodeKind::Video, constraints(None, None)),
        1920,
        1080,
        60,
    );
    assert_eq!(
        opener.describe(),
        "V4L2 the node §8 discovery names MJPG 1920x1080 @60 fps (rediscovered on each reopen)"
    );
    let first = only_dongle_under(&format!("{BUS}/3-2.2"));
    assert!(opener.open(&first, &mut probe()).is_ok());
    let second = only_dongle_under(&format!("{BUS}/3-2.3"));
    match opener.open(&second, &mut probe()).expect("one pair") {
        VideoOpening::Ready(_) => panic!("nothing was in hand"),
        VideoOpening::Node { notice, .. } => {
            assert!(notice.moved);
            assert!(
                notice.text.starts_with("video node moved: /dev/video4 is now /dev/video6 ("),
                "{}",
                notice.text
            );
        }
    }
    match opener.open(&Tree::default(), &mut probe()) {
        Err(CaptureError::Config(s)) => {
            assert!(s.starts_with("video node: no USB video node found"), "{s}")
        }
        _ => panic!("an empty tree has no node"),
    }
}

#[test]
fn a_serial_link_is_rebuilt_only_when_its_node_moved() {
    let mut link = DiscoveringLinkSource::new(
        NodeResolver::new(NodeKind::Serial, constraints(None, None)),
        57600,
    );
    assert_eq!(
        link.describe(),
        "the serial node §8 discovery names, at 57600 baud (rediscovered on each attempt)"
    );
    let mut built: Vec<String> = Vec::new();
    let first = only_dongle_under(&format!("{BUS}/3-2.2"));
    let LinkTarget { path, notice } = link.open(&first, &mut probe()).expect("one pair");
    assert_eq!((path.text(), notice.moved), ("/dev/ttyACM1", false));
    let failed = link.inner_for(&path, |_: &NodePath| Err("no thread".to_string()));
    assert_eq!(failed, Err("no thread".to_string()));
    for _ in 0..2 {
        let again = link.open(&first, &mut probe()).expect("one pair");
        assert!(!again.notice.moved, "{}", again.notice.text);
        let made: Result<(), String> = link.inner_for(&again.path, |p: &NodePath| {
            built.push(p.text().to_string());
            Ok(())
        });
        assert_eq!(made, Ok(()));
    }
    assert_eq!(built, vec!["/dev/ttyACM1".to_string()], "after a failure, and then no more");
    let second = only_dongle_under(&format!("{BUS}/3-2.3"));
    let moved = link.open(&second, &mut probe()).expect("one pair");
    assert_eq!(moved.path.text(), "/dev/ttyACM2");
    assert!(moved.notice.moved);
    let made: Result<(), String> = link.inner_for(&moved.path, |p: &NodePath| {
        built.push(p.text().to_string());
        Ok(())
    });
    assert_eq!(made, Ok(()));
    assert_eq!(built.last().map(String::as_str), Some("/dev/ttyACM2"));
    let down = link.open(&Tree::default(), &mut probe()).expect_err("nothing there");
    assert_eq!(
        down,
        "serial node: no USB video node found under /sys/class/video4linux. Is the dongle \
         plugged in?"
    );

    let fixed = DiscoveringLinkSource::new(
        NodeResolver::new(NodeKind::Serial, constraints(None, Some("/dev/ttyACM7"))),
        9600,
    );
    assert_eq!(fixed.describe(), "/dev/ttyACM7 at 9600 baud");
}

/// A tree with one entry of the sound class renamed: the number of a card is in the name of its
/// directory.
struct Renumbered {
    inner: Tree,
    from: &'static str,
    to: &'static str,
}

impl Renumbered {
    fn back(&self, path: &NodePath) -> NodePath {
        let prefix = format!("/class/sound/{}", self.to);
        match path.text().strip_prefix(&prefix) {
            Some(rest) => NodePath::new(&format!("/class/sound/{}{rest}", self.from)),
            None => path.copy(),
        }
    }
}

impl Sysfs for Renumbered {
    fn read_attr(&self, dir: &NodePath, name: &str) -> Option<String> {
        self.inner.read_attr(&self.back(dir), name)
    }
    fn read_link(&self, path: &NodePath) -> Option<NodePath> {
        self.inner.read_link(&self.back(path))
    }
    fn list_dir(&self, dir: &NodePath) -> Vec<NodePath> {
        self.inner
            .list_dir(&self.back(dir))
            .into_iter()
            .map(|e| {
                if e.file_name().as_deref() == Some(self.from) {
                    e.parent().expect("a directory").child(self.to)
                } else {
                    e
                }
            })
            .collect()
    }
    fn exists_at(&self, path: &NodePath) -> bool {
        self.inner.exists_at(&self.back(path))
    }
}

#[test]
fn a_card_that_comes_back_renumbered_is_found_again() {
    let mut opener = DiscoveringCardOpener::new(CardResolver::new(path(DESK_CAPTURE_USB)));
    let mut opened: Vec<String> = Vec::new();
    assert_eq!(
        opener.describe(),
        "ALSA — the card §8 discovery pairs with the capture node (rediscovered on each open)"
    );

    let none: Result<(), AudioError> = opener.open(&Tree::default(), |_, _| {
        panic!("there is no card to open");
    });
    assert!(matches!(none, Err(AudioError::NoCard(_))), "{none:?}");

    let first = opener.open(&desk(), |target, stop| {
        assert!(!target.notice.moved);
        assert!(stop.is_none());
        opened.push(target.device.clone());
        Ok(17)
    });
    assert_eq!(first.expect("the card as recorded"), 17);

    let flag = Arc::new(AtomicBool::new(true));
    opener.on_stop_flag(Arc::clone(&flag));
    let renumbered = Renumbered {
        inner: desk(),
        from: "card8",
        to: "card9",
    };
    let busy: Result<(), AudioError> = opener.open(&renumbered, |target, _| {
        Err(AudioError::Busy {
            device: target.device.clone(),
            why: "taken".to_string(),
        })
    });
    assert!(matches!(busy, Err(AudioError::Busy { .. })), "{busy:?}");
    let second = opener.open(&renumbered, |target, stop| {
        assert!(target.notice.moved, "a card that did not open is not the one we are on");
        assert!(
            target
                .notice
                .text
                .starts_with("audio card moved: hw:8 is now hw:9 (card9 \"Video\" (hw:9) on "),
            "{}",
            target.notice.text
        );
        assert!(Arc::ptr_eq(&stop.expect("the flag"), &flag));
        opened.push(target.device.clone());
        Ok(18)
    });
    assert_eq!(second.expect("the card after the replug"), 18);

    assert_eq!(
        opened,
        vec!["hw:8".to_string(), "hw:9".to_string()],
        "the ALSA name is derived from the card's sysfs name on every open"
    );
    assert_eq!(
        opener.describe(),
        "ALSA hw:9 (the dongle's card, rediscovered on each open)"
    );
}

/// A tree that fails the test when a node class is listed.
struct NoNodeClasses(Tree);

impl Sysfs for NoNodeClasses {
    fn read_attr(&self, dir: &NodePath, name: &str) -> Option<String> {
        self.0.read_attr(dir, name)
    }
    fn read_link(&self, path: &NodePath) -> Option<NodePath> {
        self.0.read_link(path)
    }
    fn list_dir(&self, dir: &NodePath) -> Vec<NodePath> {
        assert!(
            dir.text() != "/class/video4linux" && dir.text() != "/class/tty",
            "the card resolver enumerated {}",
            dir.text()
        );
        self.0.list_dir(dir)
    }
    fn exists_at(&self, path: &NodePath) -> bool {
        self.0.exists_at(path)
    }
}

#[test]
fn resolving_the_card_opens_no_video_node_and_never_enumerates_one() {
    let resolver = CardResolver::new(path(DESK_CAPTURE_USB));
    let resolved = resolver
        .resolve(&NoNodeClasses(desk()))
        .expect("the dongle's own card");
    assert_eq!(resolved.device, "hw:8");
    assert_eq!(
        resolved.card.usb.expect("a USB card").sysfs.text(),
        DESK_CAPTURE_USB
    );
}

/// A tree that fails the test when any directory but the sound class is listed.
struct SoundClassOnly(Tree);

impl Sysfs for SoundClassOnly {
    fn read_attr(&self, dir: &NodePath, name: &str) -> Option<String> {
        self.0.read_attr(dir, name)
    }
    fn read_link(&self, path: &NodePath) -> Option<NodePath> {
        self.0.read_link(path)
    }
    fn list_dir(&self, dir: &NodePath) -> Vec<NodePath> {
        assert_eq!(dir.text(), "/class/sound");
        self.0.list_dir(dir)
    }
    fn exists_at(&self, path: &NodePath) -> bool {
        self.0.exists_at(path)
    }
}

#[test]
fn the_search_for_a_card_lists_the_sound_class_alone() {
    let resolver = CardResolver::new(path(DESK_CAPTURE_USB));
    let found = resolver.resolve(&SoundClassOnly(desk())).expect("a card");
    assert_eq!(found.device, "hw:8");
    let missing = CardResolver::new(path("/devices//nowhere/"));
    match missing.resolve(&SoundClassOnly(desk())) {
        Err(AudioError::NoCard(why)) => assert!(
            why.starts_with("the capture node's USB device /devices//nowhere/ is not present"),
            "{why}"
        ),
        other => panic!("{other:?}"),
    }
}

#[test]
fn a_dongle_that_is_not_back_yet_is_a_no_card_condition_the_audio_loop_can_retry() {
    let sysfs = OverrideSysfs::new(desk()).remove(DESK_CAPTURE_USB, "idVendor");
    let resolver = CardResolver::new(path(DESK_CAPTURE_USB));
    let err = resolver.resolve(&sysfs).expect_err("nothing to pair against");
    match &err {
        AudioError::NoCard(why) => assert!(why.contains("3-2.2.2"), "{why}"),
        other => panic!("expected NoCard, got {other:?}"),
    }
}

#[test]
fn a_paired_dongle_with_no_card_is_no_card_and_not_an_error() {
    let usb = "/devices/pci0000:00/0000:00:08.1/0000:0b:00.3/usb4/4-2/4-2.2";
    let resolver = CardResolver::new(path(usb));
    let err = resolver
        .resolve(&superspeed())
        .expect_err("that tree has no sound card");
    match &err {
        AudioError::NoCard(why) => assert!(
            why.contains("no sound card belongs to the capture node"),
            "{why}"
        ),
        other => panic!("expected NoCard, got {other:?}"),
    }
}

#[test]
fn the_card_is_the_one_on_the_capture_device_it_was_given() {
    let usb = format!("{BUS}/3-2.3/3-2.3.2");
    let resolver = CardResolver::new(path(&usb));
    let resolved = resolver
        .resolve(&two_dongles())
        .expect("the second dongle's card");
    assert_eq!(resolved.device, "hw:10");
    assert_eq!(resolved.card.name, "card10");
    assert_ne!(resolved.card.name, "card9");
}

fn desk_probe() -> MapProbe {
    MapProbe::new()
        .capture("/dev/video4", true)
        .capture("/dev/video5", false)
        .default_capture(true)
}

fn two_dongle_probe() -> MapProbe {
    desk_probe()
        .capture("/dev/video6", true)
        .capture("/dev/video7", false)
}

fn selection(tree: &Tree, mut probe: MapProbe, constraints: &Constraints) -> Vec<String> {
    let selected = discover(tree, &mut probe, constraints);
    texts(&probe_targets(&selected, constraints))
}

#[test]
fn only_the_serial_node_discovery_selected_is_ever_probed() {
    let inventory = inventory(&desk(), &mut desk_probe());
    assert!(
        inventory.serials.iter().any(|s| s.dev.text() == "/dev/ttyACM0"),
        "the tree must still carry the unrelated node this test is about"
    );
    assert_eq!(
        selection(&desk(), desk_probe(), &Constraints::default()),
        vec!["/dev/ttyACM1".to_string()]
    );
}

#[test]
fn an_ambiguous_desk_yields_nothing_to_probe() {
    assert!(selection(&two_dongles(), two_dongle_probe(), &Constraints::default()).is_empty());
    let selected = discover(&two_dongles(), &mut two_dongle_probe(), &Constraints::default());
    let why = selected.expect_err("two candidates");
    let text = devices::refusal(&why);
    assert!(text.starts_with("refusing to probe: more than one candidate pair"), "{text}");
    assert!(text.ends_with("--serial names the node to ask."), "{text}");
}

#[test]
fn an_explicit_serial_is_the_only_node_probed_even_where_discovery_refuses_to_choose() {
    let given = constraints(None, Some("/dev/ttyACM2"));
    assert_eq!(
        selection(&two_dongles(), two_dongle_probe(), &given),
        vec!["/dev/ttyACM2".to_string()]
    );

    let unknown = constraints(None, Some("/dev/ttyUSB7"));
    assert_eq!(
        selection(&desk(), desk_probe(), &unknown),
        vec!["/dev/ttyUSB7".to_string()]
    );
}

#[test]
fn probe_failures_are_counted_in_words() {
    assert_eq!(devices::verdict(0, 1), Ok(()));
    assert_eq!(
        devices::verdict(1, 1),
        Err("1 of 1 probe(s) failed; see the probe blocks above".to_string())
    );
}

#[test]
fn a_desk_is_listed_with_its_pair() {
    let found = inventory(&desk(), &mut desk_probe());
    assert_eq!(found.pairs.len(), 1);
    let none = Constraints::default();
    assert_eq!(found.listing(&none).text(), found.text());
    assert_eq!(
        found.text(),
        "video nodes:\n\
         \u{20}  /dev/video4 3-2.2.2 345f:2133 \"USB2 Video\" 480M — capture\n\
         \u{20}  /dev/video5 3-2.2.2 345f:2133 \"USB2 Video\" 480M — metadata (not a capture node)\n\
         serial nodes:\n\
         \u{20}  /dev/ttyACM0 3-2.1 2341:0043 480M\n\
         \u{20}  /dev/ttyACM1 3-2.2.4 1a86:55d3 480M\n\
         sound cards:\n\
         \u{20}  card0 (hw:0) — not a USB device\n\
         \u{20}  card8 \"Video\" (hw:8) on 3-2.2.2 345f:2133 \"USB2 Video\" 480M\n\
         pairs:\n\
         \u{20}  /dev/video4 + /dev/ttyACM1 — internal hub (degraded): both are direct children of \
         the dongle's own hub 3-2.2 1a40:0101 480M — an internal-hub containment test, contained \
         by that hub and by all three vendor ids, which are commodity part numbers rather than a \
         kernel assertion\n      audio: card8 \"Video\" (hw:8) on 3-2.2.2 345f:2133 \"USB2 Video\" \
         480M — same USB device as the capture node (busnum:devnum) — proof\n"
    );
}

#[test]
fn given_paths_are_marked_in_the_listing() {
    let found = inventory(&desk(), &mut desk_probe());
    let given = constraints(Some("/dev/video4"), Some("/dev/ttyUSB7"));
    let text = found.listing(&given).text();
    assert!(text.contains("-> /dev/video4 "), "{text}");
    assert!(text.contains("\n   /dev/video5 "), "{text}");
    assert!(text.contains("\n   /dev/video4 + /dev/ttyACM1"), "{text}");
    assert!(
        text.contains(
            "note: --serial /dev/ttyUSB7 is not a node discovery enumerated; it will still be \
             used as given.\n"
        ),
        "{text}"
    );
    assert!(
        text.ends_with(
            "selection: /dev/video4 + /dev/ttyUSB7 — both given explicitly, so discovery is not \
             consulted.\n"
        ),
        "{text}"
    );
    let one = constraints(None, Some("/dev//ttyACM1"));
    let text = found.listing(&one).text();
    assert!(text.contains("-> /dev/ttyACM1 "), "{text}");
    assert!(text.contains("-> /dev/video4 + /dev/ttyACM1"), "{text}");
    assert_eq!(
        inventory(&Tree::default(), &mut NoProbe::new()).text(),
        "video nodes:\n  (none)\nserial nodes:\n  (none)\nsound cards:\n  (none)\npairs:\n  (none)\n"
    );
}

#[test]
fn unrelated_nodes_are_never_asked() {
    let mut tree = desk();
    let webcam = format!("{BUS}/3-2.5");
    tree.device(&webcam, (0x046d, 0x082d), 3, 50);
    tree.node("video4linux", "video0", &webcam, "1.0");
    let mut probe = desk_probe();
    let found = inventory(&tree, &mut probe);
    assert_eq!(
        texts(&probe.asked()),
        vec!["/dev/video4".to_string(), "/dev/video5".to_string()]
    );
    assert_eq!(found.videos[0].dev.text(), "/dev/video0");
    assert!(!found.videos[0].probed);
    assert_eq!(
        found.videos[0].capture_note(),
        "not probed (no topological pairing candidate)"
    );
}

#[test]
fn a_port_peer_joins_two_buses() {
    let pair = discover(
        &superspeed(),
        &mut MapProbe::new().capture("/dev/video4", true),
        &Constraints::default(),
    )
    .expect("one pair");
    match &pair.evidence {
        Some(Evidence::PortPeer {
            video_port,
            peer_port,
        }) => {
            assert_eq!(video_port, "4-2-port2");
            assert_eq!(peer_port, "3-2-port2");
        }
        other => panic!("expected a port peer, got {other:?}"),
    }
    assert!(matches!(pair.audio, AudioPairing::NoCard));
    assert!(pair.audio.card().is_none());
    assert_eq!(
        pair.text(),
        "/dev/video4 + /dev/ttyACM1 — port peer: the serial device sits under 3-2-port2, which \
         the kernel declares the peer of the video device's port 4-2-port2 — proof\n      audio: \
         no audio: no sound card belongs to the capture node's USB device"
    );
}

#[test]
fn one_device_with_two_interfaces_is_proof() {
    let mut tree = Tree::default();
    let dir = format!("{BUS}/3-2.2");
    tree.device(&dir, (0x1234, 0x5678), 3, 9);
    tree.node("video4linux", "video0", &dir, "1.0");
    tree.node("tty", "ttyACM0", &dir, "1.2");
    let pair = discover(
        &tree,
        &mut MapProbe::new().capture("/dev/video0", true),
        &Constraints::default(),
    )
    .expect("one pair");
    assert!(matches!(pair.evidence, Some(Evidence::SameDevice)));
}

#[test]
fn a_nested_hub_is_not_the_dongles_own_hub() {
    let mut tree = desk();
    let deeper = format!("{BUS}/3-2.2/3-2.2.1");
    tree.device(&deeper, (0x05e3, 0x0610), 3, 60);
    let serial = format!("{deeper}/3-2.2.1.1");
    tree.device(&serial, SERIAL_ID, 3, 61);
    tree.links.insert(
        "/class/tty/ttyACM1/device".to_string(),
        format!("{serial}/3-2.2.1.1:1.0"),
    );
    assert!(matches!(
        discover(&tree, &mut desk_probe(), &Constraints::default()),
        Err(DiscoveryError::NoPair(_))
    ));
}

#[test]
fn probes_that_are_all_refused_are_a_permissions_problem() {
    let mut probe = MapProbe::new()
        .failing("/dev/video4", 13)
        .failing("/dev/video5", 13);
    let err = discover(&desk(), &mut probe, &Constraints::default()).expect_err("nothing known");
    assert!(matches!(err, DiscoveryError::ProbesDenied(_)), "{err:?}");
    assert!(err.text().contains("'video' group"), "{}", err.text());
    assert!(err.text().contains("probe failed: "), "{}", err.text());

    let mut probe = MapProbe::new()
        .failing("/dev/video4", 16)
        .failing("/dev/video5", 13);
    let err = discover(&desk(), &mut probe, &Constraints::default()).expect_err("nothing known");
    assert!(matches!(err, DiscoveryError::Ambiguous(_)), "{err:?}");

    let mut probe = MapProbe::new()
        .failing("/dev/video4", 16)
        .capture("/dev/video5", true);
    let pair = discover(&desk(), &mut probe, &Constraints::default()).expect("one is known");
    assert_eq!(pair.video.dev.text(), "/dev/video5");
}

#[test]
fn a_failed_probe_carries_the_words_of_the_system() {
    let mut probe = MapProbe::new().failing("/dev/video4", 13);
    let e = probe
        .is_capture_node(&path("/dev/video4"))
        .expect_err("refused");
    assert_eq!(e.errno, Some(13));
    assert!(e.message.contains("os error 13"), "{}", e.message);
    let e = probe.is_capture_node(&path("/dev/video9")).expect_err("no answer");
    assert_eq!(e.errno, None);
    assert_eq!(e.message, "MapProbe has no answer for /dev/video9");
}

#[test]
fn a_recorded_tree_is_never_probed() {
    let found = inventory(&desk(), &mut NoProbe::new());
    let failure = found.videos[0].probe_error.as_ref().expect("not probed");
    assert_eq!(failure.message, NOT_PROBED);
    assert_eq!(failure.errno, None);
    assert_eq!(
        found.videos[0].capture_note(),
        "capture status unknown (probe failed)"
    );
    assert_eq!(found.pairs.len(), 2);
}

#[test]
fn two_given_paths_need_no_evidence() {
    let given = constraints(Some("/dev/video9"), Some("/dev/ttyUSB7"));
    let pair = discover(&Tree::default(), &mut NoProbe::new(), &given).expect("always");
    assert_eq!(pair.video.dev.text(), "/dev/video9");
    assert_eq!(pair.serial.dev.text(), "/dev/ttyUSB7");
    assert!(pair.evidence.is_none());
    assert!(matches!(pair.audio, AudioPairing::Unknown));
    assert!(
        pair.text().starts_with(
            "/dev/video9 + /dev/ttyUSB7 — no evidence (both nodes given explicitly)\n"
        ),
        "{}",
        pair.text()
    );
    let known = constraints(Some("/dev/video5"), Some("/dev/ttyACM1"));
    let pair = discover(&desk(), &mut desk_probe(), &known).expect("always");
    assert!(matches!(pair.evidence, Some(Evidence::InternalHub { .. })));
    assert!(pair.audio.card().is_some());
}

#[test]
fn each_refusal_says_what_to_do() {
    let err = discover(&Tree::default(), &mut NoProbe::new(), &Constraints::default())
        .expect_err("empty");
    assert!(matches!(err, DiscoveryError::NoVideoNodes));
    let mut tree = desk();
    tree.dirs.remove("/class/tty");
    let err = discover(&tree, &mut NoProbe::new(), &Constraints::default()).expect_err("no tty");
    assert!(matches!(err, DiscoveryError::NoSerialNodes));
    assert_eq!(
        err.text(),
        "no USB ttyACM node found under /sys/class/tty. Is the dongle plugged in, and is the \
         cdc_acm module loaded?"
    );

    let err = discover(
        &desk(),
        &mut desk_probe(),
        &constraints(Some("/dev/video9"), None),
    )
    .expect_err("unknown");
    assert_eq!(
        err.text(),
        "--video /dev/video9 is not a USB video node on this system. Available: /dev/video4, \
         /dev/video5"
    );
    let err = discover(
        &desk(),
        &mut desk_probe(),
        &constraints(None, Some("/dev/ttyACM0")),
    )
    .expect_err("unpaired");
    let text = err.text();
    assert!(
        text.starts_with(
            "--serial /dev/ttyACM0 does not pair with any video node by USB topology, so the \
             video node cannot be inferred.\n"
        ),
        "{text}"
    );
    assert!(text.ends_with("Pass --video as well."), "{text}");
}

#[test]
fn several_cards_on_one_device_are_not_guessed_between() {
    let mut tree = desk();
    tree.card("card11", "Video_1", DESK_CAPTURE_USB);
    let pair = discover(&tree, &mut desk_probe(), &Constraints::default()).expect("one pair");
    assert_eq!(
        pair.audio.text(),
        "no audio: 2 sound cards belong to the capture node's USB device, refusing to guess \
         between card11 card8"
    );
    let card = &inventory(&desk(), &mut desk_probe()).cards[1];
    assert_eq!(card.number(), Some(8));
    assert_eq!(card.alsa_device().as_deref(), Some("hw:8"));
    assert_eq!(card.alsa_card_id().as_deref(), Some("hw:CARD=Video"));
}

#[test]
fn evidence_is_found_between_two_devices() {
    let found = inventory(&two_dongles(), &mut two_dongle_probe());
    let first = found.videos[0].usb.as_ref().expect("a device");
    let other = found.serials[2].usb.as_ref().expect("a device");
    assert_eq!(first.id(), VIDEO_ID);
    assert_eq!(other.id(), SERIAL_ID);
    assert!(evidence_for(&two_dongles(), first, other).is_none());
    assert_eq!(found.pairs.len(), 2);
}

#[test]
fn a_tree_below_a_directory_translates_both_ways() {
    let sys = RealSysfs::new(path("/tmp/recorded"));
    assert_eq!(sys.root().text(), "/tmp/recorded");
    let host = sys.host(&path("/class/tty"));
    assert_eq!(host.text(), "/tmp/recorded/class/tty");
    assert_eq!(
        sys.sysfs_path(&host).expect("inside").text(),
        "/class/tty"
    );
    assert!(sys.sysfs_path(&path("/tmp/elsewhere")).is_none());
    assert_eq!(
        sys.host(&path("./class/tty")).text(),
        "/tmp/recorded/class/tty"
    );
    assert_eq!(sys.host(&path("")).text(), "/tmp/recorded");
}

#[test]
fn every_path_lies_below_the_empty_one() {
    let nothing = path("");
    for text in ["/a/b", "a/b", "/", ""] {
        assert!(path(text).starts_with(&nothing), "{text}");
    }
    assert!(!nothing.starts_with(&path("a")));
    assert!(!path("a").starts_with(&path("/")));
    assert_eq!(path("/a/b").below(&nothing).expect("below").text(), "/a/b");
    assert_eq!(path("a/b").below(&nothing).expect("below").text(), "/a/b");
    let sys = RealSysfs::new(path(""));
    assert_eq!(sys.sysfs_path(&path("/a/b")).expect("inside").text(), "/a/b");
    assert_eq!(sys.host(&path("./a")).text(), "./a");
}

#[test]
fn a_node_captures_when_it_streams_video_and_is_no_metadata_node() {
    assert!(delivers_frames(true, true, false));
    assert!(!delivers_frames(true, true, true));
    assert!(!delivers_frames(true, false, false));
    assert!(!delivers_frames(false, true, false));
}

#[test]
fn paths_are_compared_by_their_components() {
    assert!(path("/dev//video4/").same(&path("/dev/./video4")));
    assert!(!path("dev/video4").same(&path("/dev/video4")));
    assert!(!path("./a").same(&path("a")));
    assert_eq!(path("/a/b/c").parent().expect("a parent").text(), "/a/b");
    assert!(path("/").parent().is_none());
    assert_eq!(path("a").parent().expect("nothing").text(), "");
    assert_eq!(path("/a/b/").file_name().as_deref(), Some("b"));
    assert_eq!(path("/a/..").file_name(), None);
    assert!(path("/a/b/c").starts_with(&path("/a/b")));
    assert!(!path("/a/bc").starts_with(&path("/a/b")));
    assert_eq!(path("/a/b/c").common(&path("/a/b/d")).text(), "/a/b");
    assert_eq!(path("/dev").child("video4").text(), "/dev/video4");
}

/// A tree that counts its questions.
struct Counting {
    inner: Tree,
    asked: RefCell<HashSet<String>>,
}

impl Sysfs for Counting {
    fn read_attr(&self, dir: &NodePath, name: &str) -> Option<String> {
        self.asked
            .borrow_mut()
            .insert(format!("{}/{name}", dir.text()));
        self.inner.read_attr(dir, name)
    }
    fn read_link(&self, path: &NodePath) -> Option<NodePath> {
        self.inner.read_link(path)
    }
    fn list_dir(&self, dir: &NodePath) -> Vec<NodePath> {
        self.inner.list_dir(dir)
    }
    fn exists_at(&self, path: &NodePath) -> bool {
        self.inner.exists_at(path)
    }
}

#[test]
fn an_attribute_that_was_replaced_is_not_read_from_the_tree() {
    let counting = Counting {
        inner: desk(),
        asked: RefCell::new(HashSet::new()),
    };
    let hub = format!("{BUS}/3-2.2");
    let over = OverrideSysfs::new(counting).set(&hub, "idProduct", "0102");
    assert_eq!(
        over.read_attr(&path(&hub), "idProduct").as_deref(),
        Some("0102")
    );
    assert_eq!(
        over.read_attr(&path(&hub), "idVendor").as_deref(),
        Some("1a40")
    );
    let over = over.remove(&hub, "idVendor");
    assert!(over.read_attr(&path(&hub), "idVendor").is_none());
    assert!(!over.exists_at(&path(&hub).child("idVendor")));
    assert!(over.exists_at(&path(&hub).child("busnum")));
}

#[test]
fn entries_are_listed_in_the_order_of_their_names() {
    let names = ["video5", "video10", "video4", "card8", "video", "video10"];
    let entries = listed(
        &NodePath::new("/class/x"),
        names.iter().map(|n| n.to_string()).collect(),
    );
    let texts: Vec<&str> = entries.iter().map(|p| p.text()).collect();
    assert_eq!(
        texts,
        vec![
            "/class/x/card8",
            "/class/x/video",
            "/class/x/video10",
            "/class/x/video10",
            "/class/x/video4",
            "/class/x/video5",
        ]
    );
}

#[test]
fn names_are_ordered_as_the_standard_library_orders_them() {
    let names = ["", "a", "ab", "b", "B", "\u{e9}", "z", "a\u{0}", "10", "9"];
    for a in names {
        for b in names {
            assert_eq!(is_before(a, b), a < b, "{a:?} {b:?}");
        }
    }
    let mut expected: Vec<String> = names.iter().map(|n| n.to_string()).collect();
    let got = sorted(expected.clone());
    expected.sort();
    assert_eq!(got, expected);
}
