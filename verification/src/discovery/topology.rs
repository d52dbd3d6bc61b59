//! USB devices in sysfs, and the rules that join two of them to one dongle.

use vstd::prelude::*;

use super::sysfs::Sysfs;
use crate::path::{self, NodePath};
use crate::text;

verus! {

/// The capture function of the dongle.
pub const VIDEO_ID: (u16, u16) = (0x345f, 0x2133);

/// The serial bridge of the dongle.
pub const SERIAL_ID: (u16, u16) = (0x1a86, 0x55d3);

/// The hub inside the dongle. The part is a common one, so the rule that uses it asks for the
/// other two ids as well.
pub const INTERNAL_HUB_ID: (u16, u16) = (0x1a40, 0x0101);

/// A USB device, found from a class node. `sysfs` names the device directory itself, not an
/// interface below it or a hub above it.
#[derive(Debug)]
pub struct UsbDevice {
    /// The device directory.
    pub sysfs: NodePath,
    /// The kernel's name for it, such as `3-2.2.2`.
    pub name: String,
    pub vid: u16,
    pub pid: u16,
    pub product: Option<String>,
    pub serial: Option<String>,
    /// The `speed` attribute in Mbit/s, such as `480`.
    pub speed: Option<String>,
    pub busnum: u32,
    pub devnum: u32,
}

/// A USB device.
#[verifier::ext_equal]
pub ghost struct UsbView {
    pub sysfs: path::Spelled,
    pub name: Seq<char>,
    pub vid: u16,
    pub pid: u16,
    pub product: Option<Seq<char>>,
    pub serial: Option<Seq<char>>,
    pub speed: Option<Seq<char>>,
    pub busnum: u32,
    pub devnum: u32,
}

impl View for UsbDevice {
    type V = UsbView;

    open spec fn view(&self) -> UsbView {
        UsbView {
            sysfs: self.sysfs.spelled(),
            name: self.name@,
            vid: self.vid,
            pid: self.pid,
            product: text_of(self.product),
            serial: text_of(self.serial),
            speed: text_of(self.speed),
            busnum: self.busnum,
            devnum: self.devnum,
        }
    }
}

/// Text, where there is any.
pub open spec fn text_of(s: Option<String>) -> Option<Seq<char>> {
    match s {
        Some(t) => Some(t@),
        None => None,
    }
}

/// The same text once more, where there is any.
pub fn copy_text(s: &Option<String>) -> (r: Option<String>)
    ensures
        text_of(r) == text_of(*s),
{
    match s {
        Some(t) => Some(t.clone()),
        None => None,
    }
}

/// The device of an optional one.
pub open spec fn usb_view(u: Option<UsbDevice>) -> Option<UsbView> {
    match u {
        Some(d) => Some(d@),
        None => None,
    }
}

impl UsbView {
    /// The vendor and the product.
    pub open spec fn id(self) -> (u16, u16) {
        (self.vid, self.pid)
    }

    /// The device as text: its name, its ids, and its product and its speed where it has them.
    pub open spec fn words(self) -> Seq<char> {
        self.name + " "@ + text::zero_padded(text::numeral(self.vid as nat, 16), 4) + ":"@
            + text::zero_padded(text::numeral(self.pid as nat, 16), 4) + match self.product {
            Some(p) => " \""@ + p + "\""@,
            None => seq![],
        } + match self.speed {
            Some(s) => " "@ + s + "M"@,
            None => seq![],
        }
    }
}

impl UsbDevice {
    /// The vendor and the product.
    pub fn id(&self) -> (r: (u16, u16))
        ensures
            r == self@.id(),
    {
        (self.vid, self.pid)
    }

    /// The same device once more.
    pub fn copy(&self) -> (r: UsbDevice)
        ensures
            r@ == self@,
    {
        UsbDevice {
            sysfs: self.sysfs.copy(),
            name: self.name.clone(),
            vid: self.vid,
            pid: self.pid,
            product: copy_text(&self.product),
            serial: copy_text(&self.serial),
            speed: copy_text(&self.speed),
            busnum: self.busnum,
            devnum: self.devnum,
        }
    }

    /// The device as text.
    pub fn text(&self) -> (s: String)
        ensures
            s@ == self@.words(),
    {
        let mut s = self.name.clone();
        s.append(" ");
        text::push_padded(&mut s, self.vid as u128, 16, 4);
        s.append(":");
        text::push_padded(&mut s, self.pid as u128, 16, 4);
        if let Some(p) = &self.product {
            s.append(" \"");
            s.append(p.as_str());
            s.append("\"");
        }
        if let Some(m) = &self.speed {
            s.append(" ");
            s.append(m.as_str());
            s.append("M");
        }
        assert(s@ =~= self@.words());
        s
    }
}

/// The same device once more, where there is one.
pub fn copy_usb(u: &Option<UsbDevice>) -> (r: Option<UsbDevice>)
    ensures
        usb_view(r) == usb_view(*u),
{
    match u {
        Some(d) => Some(d.copy()),
        None => None,
    }
}

// ---- from a class node to its device -------------------------------------------------------

/// Four hexadecimal digits at most, with white space around them.
pub open spec fn hex16_value(s: Seq<char>) -> Option<nat> {
    text::unsigned_value(text::trimmed(s), 16, 0xffff)
}

fn hex16(s: &str) -> (r: Option<u16>)
    ensures
        match r {
            Some(v) => hex16_value(s@) == Some(v as nat),
            None => hex16_value(s@) is None,
        },
{
    let trimmed = text::trim(s);
    match text::parse_unsigned(trimmed.as_str(), 16, 0xffff) {
        Some(v) => Some(v as u16),
        None => None,
    }
}

/// A decimal attribute, 0 where it is missing or no number.
pub open spec fn number_or_zero(s: Option<Seq<char>>) -> nat {
    match s {
        Some(t) => match text::unsigned_value(t, 10, 0xffff_ffff) {
            Some(v) => v,
            None => 0,
        },
        None => 0,
    }
}

fn read_number<S: Sysfs>(sysfs: &S, dir: &NodePath, name: &str) -> (r: u32)
    requires
        sysfs.may_read(),
    ensures
        r == number_or_zero(sysfs.attr(dir@, name@)),
{
    match sysfs.read_attr(dir, name) {
        Some(t) => match text::parse_unsigned(t.as_str(), 10, 0xffff_ffff) {
            Some(v) => v,
            None => 0,
        },
        None => 0,
    }
}

/// The device in `dir`: it needs both ids and a name.
pub open spec fn usb_at<S: Sysfs>(s: &S, dir: path::Spelled) -> Option<UsbView> {
    match (s.attr(dir.path, "idVendor"@), s.attr(dir.path, "idProduct"@), dir.path.file_name()) {
        (Some(v), Some(p), Some(name)) => match (hex16_value(v), hex16_value(p)) {
            (Some(vid), Some(pid)) => Some(
                UsbView {
                    sysfs: dir,
                    name,
                    vid: vid as u16,
                    pid: pid as u16,
                    product: s.attr(dir.path, "product"@),
                    serial: s.attr(dir.path, "serial"@),
                    speed: s.attr(dir.path, "speed"@),
                    busnum: number_or_zero(s.attr(dir.path, "busnum"@)) as u32,
                    devnum: number_or_zero(s.attr(dir.path, "devnum"@)) as u32,
                },
            ),
            _ => None,
        },
        _ => None,
    }
}

/// Reads the device in `dir`.
pub fn read_usb_device<S: Sysfs>(sysfs: &S, dir: &NodePath) -> (r: Option<UsbDevice>)
    requires
        sysfs.may_read(),
    ensures
        usb_view(r) == usb_at(sysfs, dir.spelled()),
{
    let vendor = sysfs.read_attr(dir, "idVendor")?;
    let vid = hex16(vendor.as_str())?;
    let product = sysfs.read_attr(dir, "idProduct")?;
    let pid = hex16(product.as_str())?;
    let name = dir.file_name()?;
    let r = UsbDevice {
        sysfs: dir.copy(),
        name,
        vid,
        pid,
        product: sysfs.read_attr(dir, "product"),
        serial: sysfs.read_attr(dir, "serial"),
        speed: sysfs.read_attr(dir, "speed"),
        busnum: read_number(sysfs, dir, "busnum"),
        devnum: read_number(sysfs, dir, "devnum"),
    };
    assert(r@ =~= usb_at(sysfs, dir.spelled())->0);
    Some(r)
}

/// The deepest directory from `dir` upwards that is a USB device, that is, has an `idVendor`.
pub open spec fn device_dir<S: Sysfs>(s: &S, dir: path::Spelled) -> Option<path::Spelled>
    decreases dir.path.parts.len(),
{
    if s.present(dir.path.child("idVendor"@)) {
        Some(dir)
    } else {
        match dir.path.parent() {
            Some(up) => if up.is_nothing() {
                None
            } else {
                device_dir(s, path::plain(up))
            },
            None => None,
        }
    }
}

/// Walks up from `dir` to the nearest USB device. Walking farther would make one of two devices
/// that share a hub.
fn device_dir_of<S: Sysfs>(sysfs: &S, dir: NodePath) -> (r: Option<NodePath>)
    requires
        sysfs.may_read(),
    ensures
        match r {
            Some(p) => device_dir(sysfs, dir.spelled()) == Some(p.spelled()),
            None => device_dir(sysfs, dir.spelled()) is None,
        },
    decreases dir@.parts.len(),
{
    if sysfs.exists_at(&dir.child("idVendor")) {
        return Some(dir);
    }
    let up = dir.parent()?;
    if up.is_nothing() {
        return None;
    }
    device_dir_of(sysfs, up)
}

/// The USB device that a class entry belongs to.
pub open spec fn usb_of<S: Sysfs>(s: &S, class_dir: path::PathView) -> Option<UsbView> {
    match s.link(class_dir.child("device"@)) {
        Some(dir) => match device_dir(s, dir) {
            Some(device) => usb_at(s, device),
            None => None,
        },
        None => None,
    }
}

/// Finds the USB device that a class entry belongs to.
pub fn usb_device_of<S: Sysfs>(sysfs: &S, class_dir: &NodePath) -> (r: Option<UsbDevice>)
    requires
        sysfs.may_read(),
    ensures
        usb_view(r) == usb_of(sysfs, class_dir@),
{
    let dir = sysfs.read_link(&class_dir.child("device"))?;
    let device = device_dir_of(sysfs, dir)?;
    read_usb_device(sysfs, &device)
}

// ---- the evidence rules --------------------------------------------------------------------

/// Why two nodes are believed to be one dongle.
#[derive(Debug)]
pub enum Evidence {
    /// Two interfaces of one USB device.
    SameDevice,
    /// The kernel's `peer` link joins the two hub ports, so they are one connector.
    PortPeer {
        /// The port directory of the video device, such as `4-2-port2`.
        video_port: String,
        /// Its peer, such as `3-2-port2`.
        peer_port: String,
    },
    /// Video and serial device are direct children of the hub inside the dongle. This is degraded
    /// evidence: the three ids are those of common parts.
    InternalHub { hub: UsbDevice },
}

/// Why two nodes are believed to be one dongle.
#[verifier::ext_equal]
pub ghost enum EvidenceView {
    SameDevice,
    PortPeer { video_port: Seq<char>, peer_port: Seq<char> },
    InternalHub { hub: UsbView },
}

impl View for Evidence {
    type V = EvidenceView;

    open spec fn view(&self) -> EvidenceView {
        match self {
            Evidence::SameDevice => EvidenceView::SameDevice,
            Evidence::PortPeer { video_port, peer_port } => EvidenceView::PortPeer {
                video_port: video_port@,
                peer_port: peer_port@,
            },
            Evidence::InternalHub { hub } => EvidenceView::InternalHub { hub: hub@ },
        }
    }
}

/// The evidence of an optional one.
pub open spec fn evidence_view(e: Option<Evidence>) -> Option<EvidenceView> {
    match e {
        Some(v) => Some(v@),
        None => None,
    }
}

impl EvidenceView {
    /// The short name of the rule.
    pub open spec fn kind(self) -> Seq<char> {
        match self {
            EvidenceView::SameDevice => "same USB device"@,
            EvidenceView::PortPeer { .. } => "port peer"@,
            EvidenceView::InternalHub { .. } => "internal hub (degraded)"@,
        }
    }

    /// Whether the kernel itself says that the two belong together.
    pub open spec fn is_proof(self) -> bool {
        !(self is InternalHub)
    }

    /// The evidence as text.
    pub open spec fn words(self) -> Seq<char> {
        match self {
            EvidenceView::SameDevice => self.kind() + " (busnum:devnum) — proof"@,
            EvidenceView::PortPeer { video_port, peer_port } => self.kind()
                + ": the serial device sits under "@ + peer_port
                + ", which the kernel declares the peer of the video device's port "@ + video_port
                + " — proof"@,
            EvidenceView::InternalHub { hub } => self.kind()
                + ": both are direct children of the dongle's own hub "@ + hub.words()
                + " — an internal-hub containment test, contained by that hub and by all three vendor ids, which are commodity part numbers rather than a kernel assertion"@,
        }
    }
}

/// Every explanation opens with the short name of its rule.
pub proof fn every_evidence_message_opens_with_its_kind(e: EvidenceView)
    ensures
        text::has_prefix(e.words(), e.kind()),
{
    assert(e.words().take(e.kind().len() as int) =~= e.kind());
}

impl Evidence {
    /// The short name of the rule.
    pub fn kind(&self) -> (s: &'static str)
        ensures
            s@ == self@.kind(),
    {
        match self {
            Evidence::SameDevice => "same USB device",
            Evidence::PortPeer { .. } => "port peer",
            Evidence::InternalHub { .. } => "internal hub (degraded)",
        }
    }

    /// Whether the kernel itself says that the two belong together.
    pub fn is_proof(&self) -> (r: bool)
        ensures
            r == self@.is_proof(),
    {
        !matches!(self, Evidence::InternalHub { .. })
    }

    /// The evidence as text.
    pub fn text(&self) -> (s: String)
        ensures
            s@ == self@.words(),
    {
        let mut s = self.kind().to_owned();
        match self {
            Evidence::SameDevice => {
                s.append(" (busnum:devnum) — proof");
            },
            Evidence::PortPeer { video_port, peer_port } => {
                s.append(": the serial device sits under ");
                s.append(peer_port.as_str());
                s.append(", which the kernel declares the peer of the video device's port ");
                s.append(video_port.as_str());
                s.append(" — proof");
            },
            Evidence::InternalHub { hub } => {
                s.append(": both are direct children of the dongle's own hub ");
                s.append(hub.text().as_str());
                s.append(
                    " — an internal-hub containment test, contained by that hub and by all three vendor ids, which are commodity part numbers rather than a kernel assertion",
                );
            },
        }
        s
    }

    /// The same evidence once more.
    pub fn copy(&self) -> (r: Evidence)
        ensures
            r@ == self@,
    {
        match self {
            Evidence::SameDevice => Evidence::SameDevice,
            Evidence::PortPeer { video_port, peer_port } => Evidence::PortPeer {
                video_port: video_port.clone(),
                peer_port: peer_port.clone(),
            },
            Evidence::InternalHub { hub } => Evidence::InternalHub { hub: hub.copy() },
        }
    }
}

/// Whether two directories are one device: the same path, or the same bus and device number where
/// there is one. Numbers that are missing make nothing equal.
pub open spec fn is_same_device(a: UsbView, b: UsbView) -> bool {
    a.sysfs.path == b.sysfs.path || (a.busnum == b.busnum && a.devnum == b.devnum && a.devnum != 0)
}

/// Whether two directories are one device.
pub fn same_device(a: &UsbDevice, b: &UsbDevice) -> (r: bool)
    ensures
        r == is_same_device(a@, b@),
{
    a.sysfs.same(&b.sysfs) || (a.busnum == b.busnum && a.devnum == b.devnum && a.devnum != 0)
}

/// The port directory of a hub that a device is plugged into. The kernel puts it under the hub's
/// first interface and names it after the hub; a root hub is `usb<bus>` and its interface
/// `<bus>-0:1.0`.
pub open spec fn port_dir(device: path::PathView) -> Option<path::PathView> {
    match (device.file_name(), device.parent()) {
        (Some(name), Some(parent)) => match parent.file_name() {
            Some(hub) => {
                let dash = text::first_at(name, '-');
                if dash == name.len() {
                    None
                } else {
                    let bus = name.take(dash as int);
                    let port = text::after_last(name.skip(dash as int + 1), '.');
                    if text::has_prefix(hub, "usb"@) {
                        Some(
                            parent.child(bus + "-0:1.0"@).child("usb"@ + bus + "-port"@ + port),
                        )
                    } else {
                        Some(parent.child(hub + ":1.0"@).child(hub + "-port"@ + port))
                    }
                }
            },
            None => None,
        },
        _ => None,
    }
}

/// The port directory of a hub that a device is plugged into.
pub fn port_dir_of(device: &NodePath) -> (r: Option<NodePath>)
    ensures
        match r {
            Some(p) => port_dir(device@) == Some(p@) && p.words() == p@.text(),
            None => port_dir(device@) is None,
        },
{
    let name = device.file_name()?;
    let parent = device.parent()?;
    let hub = parent.file_name()?;
    let chars = text::chars_of(name.as_str());
    let dash = text::find_first(&chars, '-');
    if dash == chars.len() {
        return None;
    }
    let bus = text::string_of(&chars, 0, dash);
    let from = text::find_last(&chars, dash + 1, '.');
    let port = text::string_of(&chars, from, chars.len());
    proof {
        assert(bus@ =~= name@.take(dash as int));
        assert(port@ =~= chars@.skip(from as int));
    }
    if text::after_prefix(hub.as_str(), "usb").is_some() {
        let mut interface = bus.clone();
        interface.append("-0:1.0");
        let mut leaf = "usb".to_owned();
        leaf.append(bus.as_str());
        leaf.append("-port");
        leaf.append(port.as_str());
        Some(parent.child(interface.as_str()).child(leaf.as_str()))
    } else {
        let mut interface = hub.clone();
        interface.append(":1.0");
        let mut leaf = hub;
        leaf.append("-port");
        leaf.append(port.as_str());
        Some(parent.child(interface.as_str()).child(leaf.as_str()))
    }
}

/// The kernel's peer link, followed from the video port to the device on its other bus: the serial
/// device must be that device or lie below it.
pub open spec fn peer_evidence<S: Sysfs>(s: &S, video: UsbView, serial: UsbView) -> Option<
    EvidenceView,
> {
    match port_dir(video.sysfs.path) {
        Some(port) => match s.link(port.child("peer"@)) {
            Some(peer) => match (
                s.link(peer.path.child("device"@)),
                port.file_name(),
                peer.path.file_name(),
            ) {
                (Some(device), Some(video_port), Some(peer_port)) => if serial.sysfs.path.starts_with(
                    device.path,
                ) {
                    Some(EvidenceView::PortPeer { video_port, peer_port })
                } else {
                    None
                },
                _ => None,
            },
            None => None,
        },
        None => None,
    }
}

fn port_peer<S: Sysfs>(sysfs: &S, video: &UsbDevice, serial: &UsbDevice) -> (r: Option<Evidence>)
    requires
        sysfs.may_read(),
    ensures
        evidence_view(r) == peer_evidence(sysfs, video@, serial@),
{
    let video_port = port_dir_of(&video.sysfs)?;
    let peer = sysfs.read_link(&video_port.child("peer"))?;
    let device = sysfs.read_link(&peer.child("device"))?;
    if !serial.sysfs.starts_with(&device) {
        return None;
    }
    let video_port = video_port.file_name()?;
    let peer_port = peer.file_name()?;
    Some(Evidence::PortPeer { video_port, peer_port })
}

/// Both devices directly below the hub inside the dongle, all three by their ids.
pub open spec fn hub_evidence<S: Sysfs>(s: &S, video: UsbView, serial: UsbView) -> Option<
    EvidenceView,
> {
    if video.id() != VIDEO_ID || serial.id() != SERIAL_ID {
        None
    } else {
        match device_dir(s, path::plain(path::common(video.sysfs.path, serial.sysfs.path))) {
            Some(dir) => if video.sysfs.path.parent() != Some(dir.path)
                || serial.sysfs.path.parent() != Some(dir.path) {
                None
            } else {
                match usb_at(s, dir) {
                    Some(hub) => if hub.id() == INTERNAL_HUB_ID {
                        Some(EvidenceView::InternalHub { hub })
                    } else {
                        None
                    },
                    None => None,
                }
            },
            None => None,
        }
    }
}

/// Whether `up` is the parent of `child`.
fn is_parent(up: &NodePath, child: &NodePath) -> (r: bool)
    ensures
        r == (child@.parent() == Some(up@)),
{
    match child.parent() {
        Some(p) => p.same(up),
        None => false,
    }
}

fn internal_hub<S: Sysfs>(sysfs: &S, video: &UsbDevice, serial: &UsbDevice) -> (r: Option<Evidence>)
    requires
        sysfs.may_read(),
    ensures
        evidence_view(r) == hub_evidence(sysfs, video@, serial@),
{
    let (v, s) = (video.id(), serial.id());
    if v.0 != VIDEO_ID.0 || v.1 != VIDEO_ID.1 || s.0 != SERIAL_ID.0 || s.1 != SERIAL_ID.1 {
        return None;
    }
    let dir = device_dir_of(sysfs, video.sysfs.common(&serial.sysfs))?;
    if !is_parent(&dir, &video.sysfs) || !is_parent(&dir, &serial.sysfs) {
        return None;
    }
    let hub = read_usb_device(sysfs, &dir)?;
    let h = hub.id();
    if h.0 != INTERNAL_HUB_ID.0 || h.1 != INTERNAL_HUB_ID.1 {
        return None;
    }
    Some(Evidence::InternalHub { hub })
}

/// The strongest evidence that joins two USB devices, or none for devices that are unrelated.
pub open spec fn evidence<S: Sysfs>(s: &S, video: UsbView, serial: UsbView) -> Option<
    EvidenceView,
> {
    if is_same_device(video, serial) {
        Some(EvidenceView::SameDevice)
    } else {
        match peer_evidence(s, video, serial) {
            Some(e) => Some(e),
            None => hub_evidence(s, video, serial),
        }
    }
}

/// The strongest evidence that joins two USB devices.
pub fn evidence_for<S: Sysfs>(sysfs: &S, video: &UsbDevice, serial: &UsbDevice) -> (r: Option<
    Evidence,
>)
    requires
        sysfs.may_read(),
    ensures
        evidence_view(r) == evidence(sysfs, video@, serial@),
{
    if same_device(video, serial) {
        return Some(Evidence::SameDevice);
    }
    if let Some(e) = port_peer(sysfs, video, serial) {
        return Some(e);
    }
    internal_hub(sysfs, video, serial)
}

} // verus!
