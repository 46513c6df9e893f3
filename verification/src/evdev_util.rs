//! Which input devices are listened to: pinned by name or path, or every one
//! of the wanted type.
use vstd::prelude::*;
use crate::numerals;
use crate::paths;
use crate::text;

verus! {

/// The directory that holds the input devices' nodes.
pub const INPUT_DIR: &'static str = "/dev/input";

/// How long a listener without work waits before it looks at the settings
/// again, in milliseconds.
pub const IDLE_WAIT_MS: u64 = 500;

/// How long a listener without devices waits before it scans again, in
/// milliseconds.
pub const RETRY_WAIT_MS: u64 = 2000;

/// Milliseconds between looks for devices that appeared.
pub const RESCAN_INTERVAL_MS: u128 = 2000;

/// How long a poll waits for events, in milliseconds.
pub const POLL_TIMEOUT_MS: u16 = 200;

#[derive(Debug, Clone, Copy, PartialEq, Eq, Structural)]
pub enum InputDeviceType {
    Keyboard,
    Mouse,
}

/// A device that a scan found.
#[derive(Debug)]
pub struct ScannedDevice {
    pub name: String,
    pub path: String,
}

/// What a scan changed.
#[derive(Debug)]
pub struct ScanDevicesResult {
    pub removed_devices: bool,
    pub new_devices: Vec<ScannedDevice>,
}

/// An open device: the name it reports, if any, and its path.
#[derive(Debug)]
pub struct TrackedDevice {
    pub name: Option<String>,
    pub path: String,
}

/// The keys that tell device types apart, each true where the device has it.
#[derive(Debug, Clone, Copy, PartialEq, Eq, Structural)]
pub struct SupportedKeys {
    pub tab: bool,
    pub left_shift: bool,
    pub z: bool,
    pub side: bool,
    pub extra: bool,
}

/// What a listener does next.
#[derive(Debug, Clone, Copy, PartialEq, Eq, Structural)]
pub enum ListenerStep {
    /// There is nothing to listen for: wait, and look again. It is announced
    /// where `announce` says so.
    Idle { announce: bool },
    /// Scan for devices and report what came of it.
    Scan,
    /// The scan failed, or it left no device: say so, wait, and look again.
    Retry { failed: bool },
    /// Read events. That the listener listens is announced before that where
    /// `announce` says so.
    Poll { announce: bool },
}

/// A scan is due: the devices ask for it, or the last one is long ago or was
/// never.
pub open spec fn scan_is_due(needs_scan: bool, since_rescan: Option<u128>) -> bool {
    needs_scan || (since_rescan matches Some(ms) ==> ms >= RESCAN_INTERVAL_MS)
}

/// Whether it is time to look for devices, `since_rescan` milliseconds after
/// the last look.
pub fn rescan_due(needs_scan: bool, since_rescan: Option<u128>) -> (r: bool)
    ensures
        r == scan_is_due(needs_scan, since_rescan),
{
    needs_scan || match since_rescan {
        Some(ms) => ms >= RESCAN_INTERVAL_MS,
        None => true,
    }
}

/// Name and path of a device.
pub open spec fn device_view(d: TrackedDevice) -> (Option<Seq<char>>, Seq<char>) {
    (text::opt_view(d.name), d.path@)
}

pub open spec fn device_views(ds: Seq<TrackedDevice>) -> Seq<(Option<Seq<char>>, Seq<char>)> {
    Seq::new(ds.len(), |i: int| device_view(ds[i]))
}

/// The devices whose flag is set, in order.
pub open spec fn kept(ds: Seq<(Option<Seq<char>>, Seq<char>)>, keep: Seq<bool>) -> Seq<
    (Option<Seq<char>>, Seq<char>),
>
    decreases ds.len(),
{
    if ds.len() == 0 {
        Seq::empty()
    } else {
        let front = kept(ds.drop_last(), keep);
        if keep[ds.len() - 1] {
            front.push(ds.last())
        } else {
            front
        }
    }
}

/// The devices that a scan or a poll leaves, and for each old device whether
/// it stayed.
fn keep_devices(ds: &Vec<TrackedDevice>, keep: &Vec<bool>) -> (r: Vec<TrackedDevice>)
    requires
        ds@.len() == keep@.len(),
    ensures
        device_views(r@) == kept(device_views(ds@), keep@),
{
    let ghost all = device_views(ds@);
    let mut out: Vec<TrackedDevice> = Vec::new();
    let mut i: usize = 0;
    while i < ds.len()
        invariant
            i <= ds.len() == keep.len(),
            all == device_views(ds@),
            device_views(out@) == kept(all.take(i as int), keep@),
        decreases ds.len() - i,
    {
        assert(all.take(i + 1).drop_last() == all.take(i as int));
        assert(all.take(i + 1).last() == all[i as int]);
        if keep[i] {
            let ghost before = device_views(out@);
            let name: Option<String> = match &ds[i].name {
                Some(n) => Some(n.clone()),
                None => None,
            };
            out.push(TrackedDevice { name, path: ds[i].path.clone() });
            assert(device_views(out@) == before.push(device_view(out@.last())));
        }
        i = i + 1;
    }
    assert(all.take(i as int) == all);
    out
}

/// Whether an optional string is `want`.
fn is_text(s: &Option<String>, want: &str) -> (r: bool)
    ensures
        r == (text::opt_view(*s) == Some(want@)),
{
    match s {
        Some(t) => text::same(t.as_str(), want),
        None => false,
    }
}

/// How a scan begins: which devices stay, whether any was dropped, and
/// whether the pinned one is already open, so that the scan is over.
#[derive(Debug)]
pub struct ScanStart {
    /// For each device that was open, whether it stays.
    pub keep: Vec<bool>,
    pub removed_devices: bool,
    pub satisfied: bool,
}

/// A node that could be opened: its path, the name that the device reports
/// and its keys.
#[derive(Debug)]
pub struct OpenedNode {
    pub path: String,
    pub name: Option<String>,
    pub keys: Option<SupportedKeys>,
}

/// Name and path of an opened node.
pub open spec fn node_view(n: OpenedNode) -> (Option<Seq<char>>, Seq<char>) {
    (text::opt_view(n.name), n.path@)
}

/// Whether a device at the path is among the devices, however the path is
/// written.
pub open spec fn has_path(ds: Seq<(Option<Seq<char>>, Seq<char>)>, path: Seq<char>) -> bool {
    exists|i: int| 0 <= i < ds.len() && paths::same_components((#[trigger] ds[i]).1, path)
}

/// No two devices have the same path.
pub open spec fn distinct_paths(ds: Seq<(Option<Seq<char>>, Seq<char>)>) -> bool {
    forall|i: int, j: int|
        0 <= i < j < ds.len() ==> !paths::same_components(
            (#[trigger] ds[i]).1,
            (#[trigger] ds[j]).1,
        )
}

/// The position of the first node with the name.
pub open spec fn first_named(nodes: Seq<OpenedNode>, name: Seq<char>) -> Option<int>
    decreases nodes.len(),
{
    if nodes.len() == 0 {
        None
    } else {
        match first_named(nodes.drop_last(), name) {
            Some(i) => Some(i),
            None => if text::opt_view(nodes.last().name) == Some(name) {
                Some(nodes.len() - 1)
            } else {
                None
            },
        }
    }
}

/// The open devices after automatic detection: every node of the type whose
/// path is not open yet is opened, in order.
pub open spec fn detected(
    ds: Seq<(Option<Seq<char>>, Seq<char>)>,
    device_type: InputDeviceType,
    nodes: Seq<OpenedNode>,
) -> Seq<(Option<Seq<char>>, Seq<char>)>
    decreases nodes.len(),
{
    if nodes.len() == 0 {
        ds
    } else {
        let front = detected(ds, device_type, nodes.drop_last());
        let n = nodes.last();
        if !has_path(front, n.path@) && is_of_type(device_type, n.keys) {
            front.push(node_view(n))
        } else {
            front
        }
    }
}

/// The devices that are shown for these: a device without a name is shown as
/// unknown.
pub open spec fn shown(ds: Seq<(Option<Seq<char>>, Seq<char>)>) -> Seq<(Seq<char>, Seq<char>)> {
    Seq::new(ds.len(), |i: int| (shown_name(ds[i].0), ds[i].1))
}

/// Name and path of each scanned device.
pub open spec fn scanned_views(ds: Seq<ScannedDevice>) -> Seq<(Seq<char>, Seq<char>)> {
    Seq::new(ds.len(), |i: int| (ds[i].name@, ds[i].path@))
}

proof fn lemma_first_named(nodes: Seq<OpenedNode>, name: Seq<char>)
    ensures
        first_named(nodes, name) matches Some(i) ==> 0 <= i < nodes.len() && text::opt_view(
            nodes[i].name,
        ) == Some(name),
    decreases nodes.len(),
{
    if nodes.len() > 0 {
        lemma_first_named(nodes.drop_last(), name);
    }
}

proof fn lemma_first_named_stays(nodes: Seq<OpenedNode>, name: Seq<char>, k: int)
    requires
        0 <= k <= nodes.len(),
        first_named(nodes.take(k), name) is Some,
    ensures
        first_named(nodes, name) == first_named(nodes.take(k), name),
    decreases nodes.len() - k,
{
    if k == nodes.len() {
        assert(nodes.take(k) == nodes);
    } else {
        assert(nodes.take(k + 1).drop_last() == nodes.take(k));
        lemma_first_named_stays(nodes, name, k + 1);
    }
}

proof fn lemma_detected_extends(
    ds: Seq<(Option<Seq<char>>, Seq<char>)>,
    device_type: InputDeviceType,
    nodes: Seq<OpenedNode>,
)
    ensures
        detected(ds, device_type, nodes).len() >= ds.len(),
        detected(ds, device_type, nodes).take(ds.len() as int) == ds,
    decreases nodes.len(),
{
    if nodes.len() > 0 {
        lemma_detected_extends(ds, device_type, nodes.drop_last());
    }
    assert(detected(ds, device_type, nodes).take(ds.len() as int) =~= ds);
}

/// Automatic detection opens no path twice, whatever nodes it is shown.
pub proof fn law_no_path_is_opened_twice(
    ds: Seq<(Option<Seq<char>>, Seq<char>)>,
    device_type: InputDeviceType,
    nodes: Seq<OpenedNode>,
)
    requires
        distinct_paths(ds),
    ensures
        distinct_paths(detected(ds, device_type, nodes)),
    decreases nodes.len(),
{
    if nodes.len() > 0 {
        law_no_path_is_opened_twice(ds, device_type, nodes.drop_last());
    }
}

/// Automatic detection drops nothing: the devices that were open stay open,
/// in front of the new ones.
pub proof fn law_detection_keeps_open_devices(
    ds: Seq<(Option<Seq<char>>, Seq<char>)>,
    device_type: InputDeviceType,
    nodes: Seq<OpenedNode>,
)
    ensures
        ds.is_prefix_of(detected(ds, device_type, nodes)),
{
    lemma_detected_extends(ds, device_type, nodes);
}

proof fn lemma_kept_distinct(ds: Seq<(Option<Seq<char>>, Seq<char>)>, keep: Seq<bool>)
    requires
        distinct_paths(ds),
    ensures
        distinct_paths(kept(ds, keep)),
        forall|i: int|
            0 <= i < kept(ds, keep).len() ==> has_path(ds, (#[trigger] kept(ds, keep)[i]).1),
    decreases ds.len(),
{
    if ds.len() > 0 {
        let front = ds.drop_last();
        lemma_kept_distinct(front, keep);
        let f = kept(front, keep);
        let r = kept(ds, keep);
        assert forall|i: int| 0 <= i < r.len() implies has_path(ds, (#[trigger] r[i]).1) by {
            if i < f.len() {
                assert(has_path(front, f[i].1));
                let j = choose|j: int|
                    0 <= j < front.len() && paths::same_components((#[trigger] front[j]).1, f[i].1);
                assert(paths::same_components(ds[j].1, r[i].1));
            } else {
                assert(paths::same_components(ds[ds.len() - 1].1, r[i].1));
            }
        }
        assert forall|i: int, j: int| 0 <= i < j < r.len() implies !paths::same_components(
            (#[trigger] r[i]).1,
            (#[trigger] r[j]).1,
        ) by {
            if j == f.len() {
                assert(has_path(front, f[i].1));
                let k = choose|k: int|
                    0 <= k < front.len() && paths::same_components((#[trigger] front[k]).1, f[i].1);
                assert(!paths::same_components(ds[k].1, ds[ds.len() - 1].1));
            } else {
                assert(!paths::same_components(f[i].1, f[j].1));
            }
        }
    }
}

/// The devices that are listened to.
#[derive(Debug)]
pub struct EventDeviceHelper {
    pub device_type: InputDeviceType,
    pub pinned_device_name: Option<String>,
    pub pinned_device_path: Option<String>,
    pub devices: Vec<TrackedDevice>,
    pub needs_scan: bool,
}

/// The name to show for a device.
pub open spec fn shown_name(name: Option<Seq<char>>) -> Seq<char> {
    match name {
        Some(n) => n,
        None => "Unknown"@,
    }
}

/// Whether a device with these keys is of the type. A device that reports no
/// keys is of neither.
pub open spec fn is_of_type(device_type: InputDeviceType, keys: Option<SupportedKeys>) -> bool {
    match keys {
        Some(k) => match device_type {
            InputDeviceType::Keyboard => k.tab || k.left_shift || k.z,
            InputDeviceType::Mouse => k.side || k.extra,
        },
        None => false,
    }
}

impl EventDeviceHelper {
    /// Name and path of every open device.
    pub open spec fn open_devices(&self) -> Seq<(Option<Seq<char>>, Seq<char>)> {
        device_views(self.devices@)
    }

    /// Whether a scan is asked for, by the flag or because no device is open.
    pub open spec fn wants_scan(&self) -> bool {
        self.needs_scan || self.devices@.len() == 0
    }

    /// The state is that of a new helper of the type.
    pub open spec fn is_reset(&self, device_type: InputDeviceType) -> bool {
        &&& self.device_type == device_type
        &&& self.pinned_device_name is None
        &&& self.pinned_device_path is None
        &&& self.devices@ == Seq::<TrackedDevice>::empty()
        &&& self.needs_scan
    }

    /// The state after the pinned device was set: a change of either part
    /// asks for a scan.
    pub open spec fn pinned_to(
        &self,
        name: Option<Seq<char>>,
        path: Option<Seq<char>>,
        after: &EventDeviceHelper,
    ) -> bool {
        &&& text::opt_view(after.pinned_device_name) == name
        &&& text::opt_view(after.pinned_device_path) == path
        &&& after.needs_scan == (self.needs_scan || text::opt_view(self.pinned_device_name) != name
            || text::opt_view(self.pinned_device_path) != path)
        &&& after.device_type == self.device_type
        &&& after.devices == self.devices
    }

    /// Everything but the open devices and the scan flag.
    pub open spec fn same_setup(&self, other: &EventDeviceHelper) -> bool {
        &&& self.device_type == other.device_type
        &&& self.pinned_device_name == other.pinned_device_name
        &&& self.pinned_device_path == other.pinned_device_path
    }

    pub fn new(device_type: InputDeviceType) -> (r: Self)
        ensures
            r.is_reset(device_type),
            r.wf(),
    {
        EventDeviceHelper {
            device_type,
            pinned_device_name: None,
            pinned_device_path: None,
            devices: Vec::new(),
            needs_scan: true,
        }
    }

    pub fn reset(&mut self)
        ensures
            final(self).is_reset(old(self).device_type),
            final(self).wf(),
    {
        self.pinned_device_name = None;
        self.pinned_device_path = None;
        self.devices = Vec::new();
        self.needs_scan = true;
    }

    pub fn num_devices(&self) -> (r: usize)
        ensures
            r == self.devices@.len(),
    {
        self.devices.len()
    }

    pub fn needs_scan(&self) -> (r: bool)
        ensures
            r == self.wants_scan(),
    {
        self.needs_scan || self.devices.len() == 0
    }

    /// Updates the pinned device; a change of either part asks for a scan.
    pub fn check_update_pinned_device(
        &mut self,
        device_name: &Option<String>,
        device_path: &Option<String>,
    )
        ensures
            old(self).pinned_to(
                text::opt_view(*device_name),
                text::opt_view(*device_path),
                final(self),
            ),
    {
        if !text::same_opt(&self.pinned_device_name, device_name) {
            self.pinned_device_name = text::copy_opt(device_name);
            self.needs_scan = true;
        }
        if !text::same_opt(&self.pinned_device_path, device_path) {
            self.pinned_device_path = text::copy_opt(device_path);
            self.needs_scan = true;
        }
    }

    /// No device is open twice.
    pub open spec fn wf(&self) -> bool {
        distinct_paths(self.open_devices())
    }

    /// Whether a scan keeps a device: one pinned by name keeps the devices of
    /// that name, one pinned by path alone those at that path, and one without
    /// a pin keeps all.
    pub open spec fn keeps(&self, device: (Option<Seq<char>>, Seq<char>)) -> bool {
        match text::opt_view(self.pinned_device_name) {
            Some(name) => device.0 == Some(name),
            None => match text::opt_view(self.pinned_device_path) {
                Some(path) => paths::same_components(device.1, path),
                None => true,
            },
        }
    }

    /// Whether a device is pinned, by name or by path.
    pub open spec fn pinned(&self) -> bool {
        self.pinned_device_name is Some || self.pinned_device_path is Some
    }

    /// Begins a scan: where a device is pinned, the others are dropped, and
    /// where the pinned one is left, the scan is over.
    pub fn begin_scan(&mut self) -> (r: ScanStart)
        ensures
            final(self).same_setup(old(self)),
            r.keep@ == Seq::new(
                old(self).open_devices().len(),
                |i: int| old(self).keeps(old(self).open_devices()[i]),
            ),
            final(self).open_devices() == kept(old(self).open_devices(), r.keep@),
            r.removed_devices == (final(self).open_devices().len() != old(
                self,
            ).open_devices().len()),
            r.satisfied == (old(self).pinned() && final(self).open_devices().len() > 0),
            old(self).pinned() && !r.satisfied ==> final(self).open_devices().len() == 0,
            final(self).needs_scan == (old(self).needs_scan && !(r.satisfied && old(
                self,
            ).pinned_device_name is None)),
            old(self).wf() ==> final(self).wf(),
    {
        let mut keep: Vec<bool> = Vec::new();
        let mut i: usize = 0;
        while i < self.devices.len()
            invariant
                i <= self.devices.len(),
                keep@ == Seq::new(i as nat, |k: int| self.keeps(self.open_devices()[k])),
            decreases self.devices.len() - i,
        {
            assert(self.open_devices()[i as int] == device_view(self.devices@[i as int]));
            let stays: bool = match &self.pinned_device_name {
                Some(name) => is_text(&self.devices[i].name, name.as_str()),
                None => match &self.pinned_device_path {
                    Some(path) => paths::same_path(self.devices[i].path.as_str(), path.as_str()),
                    None => true,
                },
            };
            keep.push(stays);
            i = i + 1;
            assert(keep@ == Seq::new(i as nat, |k: int| self.keeps(self.open_devices()[k])));
        }
        let left: Vec<TrackedDevice> = keep_devices(&self.devices, &keep);
        proof {
            if self.wf() {
                lemma_kept_distinct(self.open_devices(), keep@);
            }
        }
        let removed_devices: bool = left.len() != self.devices.len();
        let pinned: bool = self.pinned_device_name.is_some() || self.pinned_device_path.is_some();
        let satisfied: bool = pinned && left.len() > 0;
        assert(left@.len() == device_views(left@).len());
        self.devices = left;
        if satisfied && self.pinned_device_name.is_none() {
            self.needs_scan = false;
        }
        ScanStart { keep, removed_devices, satisfied }
    }

    /// Opens the device of the pinned name, if one of the nodes has it.
    fn open_named(&mut self, nodes: &Vec<OpenedNode>) -> (r: Option<ScannedDevice>)
        ensures
            final(self).same_setup(old(self)),
            match old(self).named(nodes@) {
                Some(i) => {
                    &&& r matches Some(d) && (d.name@, d.path@) == (
                        shown_name(text::opt_view(nodes@[i].name)),
                        nodes@[i].path@,
                    )
                    &&& final(self).open_devices() == old(self).open_devices().push(node_view(nodes@[i]))
                    &&& !final(self).needs_scan
                },
                None => r is None && *final(self) == *old(self),
            },
    {
        let name: String = match &self.pinned_device_name {
            Some(n) => n.clone(),
            None => {
                return None;
            },
        };
        let mut i: usize = 0;
        while i < nodes.len()
            invariant
                i <= nodes.len(),
                *self == *old(self),
                text::opt_view(self.pinned_device_name) == Some(name@),
                first_named(nodes@.take(i as int), name@) is None,
            decreases nodes.len() - i,
        {
            assert(nodes@.take(i + 1).drop_last() == nodes@.take(i as int));
            assert(nodes@.take(i + 1).last() == nodes@[i as int]);
            if is_text(&nodes[i].name, name.as_str()) {
                proof {
                    lemma_first_named_stays(nodes@, name@, i + 1);
                }
                self.needs_scan = false;
                return Some(self.track(nodes[i].path.as_str(), text::copy_opt(&nodes[i].name)));
            }
            i = i + 1;
        }
        assert(nodes@.take(i as int) == nodes@);
        None
    }

    /// The node that a scan by name finds.
    pub open spec fn named(&self, nodes: Seq<OpenedNode>) -> Option<int> {
        match text::opt_view(self.pinned_device_name) {
            Some(name) => first_named(nodes, name),
            None => None,
        }
    }

    /// Opens every node of the wanted type that is not open yet.
    fn open_detected(&mut self, nodes: &Vec<OpenedNode>) -> (r: Vec<ScannedDevice>)
        ensures
            final(self).same_setup(old(self)),
            final(self).open_devices() == detected(
                old(self).open_devices(),
                old(self).device_type,
                nodes@,
            ),
            scanned_views(r@) == shown(
                final(self).open_devices().skip(old(self).open_devices().len() as int),
            ),
            final(self).needs_scan == (final(self).open_devices().len() == 0),
    {
        let mut found: Vec<ScannedDevice> = Vec::new();
        let ghost before = self.open_devices();
        let mut i: usize = 0;
        assert(nodes@.take(0) == Seq::<OpenedNode>::empty());
        assert(before.skip(before.len() as int) == Seq::<(Option<Seq<char>>, Seq<char>)>::empty());
        assert(scanned_views(found@) == shown(before.skip(before.len() as int)));
        while i < nodes.len()
            invariant
                i <= nodes.len(),
                self.same_setup(old(self)),
                before == old(self).open_devices(),
                self.open_devices().len() >= before.len(),
                self.open_devices() == detected(
                    before,
                    self.device_type,
                    nodes@.take(i as int),
                ),
                scanned_views(found@) == shown(self.open_devices().skip(before.len() as int)),
            decreases nodes.len() - i,
        {
            assert(nodes@.take(i + 1).drop_last() == nodes@.take(i as int));
            assert(nodes@.take(i + 1).last() == nodes@[i as int]);
            let is_match: bool = match self.device_type {
                InputDeviceType::Keyboard => is_keyboard(nodes[i].keys),
                InputDeviceType::Mouse => is_mouse(nodes[i].keys),
            };
            if !self.contains_device_path(nodes[i].path.as_str()) && is_match {
                let ghost devices = self.open_devices();
                let ghost views = scanned_views(found@);
                found.push(self.track(nodes[i].path.as_str(), text::copy_opt(&nodes[i].name)));
                assert(self.open_devices().skip(before.len() as int) == devices.skip(
                    before.len() as int,
                ).push(node_view(nodes@[i as int])));
                assert(scanned_views(found@) == views.push(
                    (found@.last().name@, found@.last().path@),
                ));
                assert(scanned_views(found@) == shown(self.open_devices().skip(before.len() as int)));
            }
            i = i + 1;
        }
        assert(nodes@.take(i as int) == nodes@);
        self.needs_scan = self.devices.len() == 0;
        found
    }

    /// Ends a scan that the start left open. `nodes` holds the event nodes
    /// that could be opened, in order, or is None where they could not be
    /// listed; `pinned` is the node at the pinned path, where it could be
    /// opened. A device pinned by name comes first, then one pinned by path,
    /// then automatic detection. The result is None where nodes were needed
    /// and could not be listed.
    pub fn scan_devices(
        &mut self,
        start: &ScanStart,
        nodes: Option<&Vec<OpenedNode>>,
        pinned: Option<&OpenedNode>,
    ) -> (r: Option<ScanDevicesResult>)
        requires
            old(self).pinned() ==> old(self).open_devices().len() == 0,
        ensures
            final(self).same_setup(old(self)),
            ({
                let by_name = old(self).pinned_device_name is Some;
                let by_path = old(self).pinned_device_path is Some && pinned is Some;
                if nodes is None && (by_name || !by_path) {
                    r is None && *final(self) == *old(self)
                } else if nodes is Some && old(self).named(nodes.unwrap()@) is Some {
                    let n = nodes.unwrap()@[old(self).named(nodes.unwrap()@).unwrap()];
                    &&& r matches Some(result) && result.removed_devices == start.removed_devices
                        && scanned_views(result.new_devices@) == shown(seq![node_view(n)])
                    &&& final(self).open_devices() == seq![node_view(n)]
                    &&& !final(self).needs_scan
                } else if by_path {
                    let n = *pinned.unwrap();
                    &&& r matches Some(result) && result.removed_devices == (!by_name
                        && start.removed_devices) && scanned_views(result.new_devices@) == shown(
                        seq![node_view(n)],
                    )
                    &&& final(self).open_devices() == seq![node_view(n)]
                    &&& !final(self).needs_scan
                } else {
                    &&& r matches Some(result) && !result.removed_devices && scanned_views(
                        result.new_devices@,
                    ) == shown(
                        final(self).open_devices().skip(old(self).open_devices().len() as int),
                    )
                    &&& final(self).open_devices() == detected(
                        old(self).open_devices(),
                        old(self).device_type,
                        nodes.unwrap()@,
                    )
                    &&& final(self).needs_scan == (final(self).open_devices().len() == 0)
                }
            }),
            old(self).wf() ==> final(self).wf(),
    {
        let by_name: bool = self.pinned_device_name.is_some();
        if by_name {
            match nodes {
                None => {
                    return None;
                },
                Some(nodes) => {
                    proof {
                        lemma_first_named(nodes@, self.pinned_device_name.unwrap()@);
                    }
                    if let Some(d) = self.open_named(nodes) {
                        let mut new_devices: Vec<ScannedDevice> = Vec::new();
                        new_devices.push(d);
                        return Some(
                            ScanDevicesResult {
                                removed_devices: start.removed_devices,
                                new_devices,
                            },
                        );
                    }
                },
            }
        }
        if self.pinned_device_path.is_some() {
            if let Some(n) = pinned {
                self.needs_scan = false;
                let mut new_devices: Vec<ScannedDevice> = Vec::new();
                new_devices.push(self.track(n.path.as_str(), text::copy_opt(&n.name)));
                return Some(
                    ScanDevicesResult {
                        removed_devices: !by_name && start.removed_devices,
                        new_devices,
                    },
                );
            }
        }
        match nodes {
            None => None,
            Some(nodes) => {
                proof {
                    if self.wf() {
                        law_no_path_is_opened_twice(
                            self.open_devices(),
                            self.device_type,
                            nodes@,
                        );
                    }
                }
                let new_devices: Vec<ScannedDevice> = self.open_detected(nodes);
                Some(ScanDevicesResult { removed_devices: false, new_devices })
            },
        }
    }

    fn track(&mut self, path: &str, name: Option<String>) -> (r: ScannedDevice)
        ensures
            final(self).same_setup(old(self)),
            final(self).open_devices() == old(self).open_devices().push((text::opt_view(name), path@)),
            final(self).needs_scan == old(self).needs_scan,
            r.name@ == shown_name(text::opt_view(name)),
            r.path@ == path@,
    {
        let shown: String = match &name {
            Some(n) => n.clone(),
            None => "Unknown".to_owned(),
        };
        let ghost before = self.open_devices();
        self.devices.push(TrackedDevice { name, path: path.to_owned() });
        assert(self.open_devices() == before.push(device_view(self.devices@.last())));
        ScannedDevice { name: shown, path: path.to_owned() }
    }

    /// Whether the device at `path` is open.
    pub fn contains_device_path(&self, path: &str) -> (r: bool)
        ensures
            r == has_path(self.open_devices(), path@),
    {
        let mut i: usize = 0;
        while i < self.devices.len()
            invariant
                i <= self.devices.len(),
                forall|k: int|
                    0 <= k < i ==> !paths::same_components(
                        (#[trigger] self.open_devices()[k]).1,
                        path@,
                    ),
            decreases self.devices.len() - i,
        {
            assert(self.open_devices()[i as int].1 == self.devices@[i as int].path@);
            if paths::same_path(self.devices[i].path.as_str(), path) {
                return true;
            }
            i = i + 1;
        }
        false
    }

    /// Drops the devices at the given positions. For each old device the
    /// result says whether it stayed.
    pub fn drop_dead(&mut self, dead: &Vec<usize>) -> (r: Vec<bool>)
        ensures
            final(self).same_setup(old(self)),
            final(self).needs_scan == old(self).needs_scan,
            r@ == Seq::new(
                old(self).open_devices().len(),
                |i: int| !dead@.contains(i as usize),
            ),
            final(self).open_devices() == kept(old(self).open_devices(), r@),
            old(self).wf() ==> final(self).wf(),
    {
        let mut keep: Vec<bool> = Vec::new();
        let mut i: usize = 0;
        while i < self.devices.len()
            invariant
                i <= self.devices.len(),
                keep@ == Seq::new(i as nat, |k: int| !dead@.contains(k as usize)),
            decreases self.devices.len() - i,
        {
            keep.push(!has_index(dead, i));
            i = i + 1;
            assert(keep@ == Seq::new(i as nat, |k: int| !dead@.contains(k as usize)));
        }
        proof {
            if self.wf() {
                lemma_kept_distinct(self.open_devices(), keep@);
            }
        }
        self.devices = keep_devices(&self.devices, &keep);
        keep
    }

    /// Drops every device, after a poll failed. The result is their number.
    pub fn drop_all(&mut self) -> (r: usize)
        ensures
            final(self).same_setup(old(self)),
            final(self).needs_scan == old(self).needs_scan,
            final(self).devices@ == Seq::<TrackedDevice>::empty(),
            r == old(self).devices@.len(),
    {
        let n: usize = self.devices.len();
        self.devices = Vec::new();
        n
    }
}

pub fn is_keyboard(keys: Option<SupportedKeys>) -> (r: bool)
    ensures
        r == is_of_type(InputDeviceType::Keyboard, keys),
{
    match keys {
        Some(k) => k.tab || k.left_shift || k.z,
        None => false,
    }
}

pub fn is_mouse(keys: Option<SupportedKeys>) -> (r: bool)
    ensures
        r == is_of_type(InputDeviceType::Mouse, keys),
{
    match keys {
        Some(k) => k.side || k.extra,
        None => false,
    }
}

fn has_index(v: &Vec<usize>, x: usize) -> (r: bool)
    ensures
        r == v@.contains(x),
{
    let mut i: usize = 0;
    while i < v.len()
        invariant
            i <= v.len(),
            forall|k: int| 0 <= k < i ==> v@[k] != x,
        decreases v.len() - i,
    {
        if v[i] == x {
            assert(v@[i as int] == x);
            return true;
        }
        i = i + 1;
    }
    false
}

/// What a poll said of a device.
#[derive(Debug, Clone, Copy, PartialEq, Eq, Structural)]
pub struct PollFlags {
    pub readable: bool,
    pub hung_up_or_error: bool,
}

/// The positions below `n` of the devices with events.
pub open spec fn ready_below(flags: Seq<PollFlags>, n: nat) -> Seq<usize>
    decreases n,
{
    if n == 0 {
        Seq::empty()
    } else {
        let front = ready_below(flags, (n - 1) as nat);
        if flags[n - 1].readable {
            front.push((n - 1) as usize)
        } else {
            front
        }
    }
}

/// The positions below `n` of the devices that are gone and have no events
/// left.
pub open spec fn dead_below(flags: Seq<PollFlags>, n: nat) -> Seq<usize>
    decreases n,
{
    if n == 0 {
        Seq::empty()
    } else {
        let front = dead_below(flags, (n - 1) as nat);
        if !flags[n - 1].readable && flags[n - 1].hung_up_or_error {
            front.push((n - 1) as usize)
        } else {
            front
        }
    }
}

/// Which devices have events and which are gone.
#[derive(Debug)]
pub struct PollReadyDeadResult {
    pub ready: Vec<usize>,
    pub dead: Vec<usize>,
}

pub fn ready_or_dead(flags: &Vec<PollFlags>) -> (r: PollReadyDeadResult)
    ensures
        r.ready@ == ready_below(flags@, flags@.len()),
        r.dead@ == dead_below(flags@, flags@.len()),
{
    let mut ready: Vec<usize> = Vec::new();
    let mut dead: Vec<usize> = Vec::new();
    let mut i: usize = 0;
    while i < flags.len()
        invariant
            i <= flags.len(),
            ready@ == ready_below(flags@, i as nat),
            dead@ == dead_below(flags@, i as nat),
        decreases flags.len() - i,
    {
        if flags[i].readable {
            ready.push(i);
        } else if flags[i].hung_up_or_error {
            dead.push(i);
        }
        i = i + 1;
    }
    PollReadyDeadResult { ready, dead }
}

// ---------------------------------------------------------------------
// Device nodes
// ---------------------------------------------------------------------

/// The number of an `eventN` node, or None for any other name.
pub open spec fn node_index(name: Seq<char>) -> Option<nat> {
    match text::after_prefix(name, "event"@) {
        Some(n) => numerals::unsigned_to(n, 10, u32::MAX as nat),
        None => None,
    }
}

pub fn event_index(file_name: &str) -> (r: Option<u32>)
    ensures
        r matches Some(n) ==> node_index(file_name@) == Some(n as nat),
        r is None ==> node_index(file_name@) is None,
{
    match text::strip_prefix(file_name, "event") {
        Some(n) => numerals::parse_u32(n.as_str()),
        None => None,
    }
}

/// The names with number `n`, in order.
pub open spec fn numbered(names: Seq<Seq<char>>, n: nat) -> Seq<Seq<char>>
    decreases names.len(),
{
    if names.len() == 0 {
        Seq::empty()
    } else {
        let front = numbered(names.drop_last(), n);
        if node_index(names.last()) == Some(n) {
            front.push(names.last())
        } else {
            front
        }
    }
}

/// Every name has a number, and the numbers do not fall.
pub open spec fn in_number_order(names: Seq<Seq<char>>) -> bool {
    &&& forall|i: int| 0 <= i < names.len() ==> node_index(#[trigger] names[i]) is Some
    &&& forall|i: int, j: int|
        0 <= i < j < names.len() ==> node_index(#[trigger] names[i]).unwrap() <= node_index(
            #[trigger] names[j],
        ).unwrap()
}

proof fn lemma_numbered_concat(a: Seq<Seq<char>>, b: Seq<Seq<char>>, n: nat)
    ensures
        numbered(a + b, n) == numbered(a, n) + numbered(b, n),
    decreases b.len(),
{
    if b.len() == 0 {
        assert(a + b == a);
    } else {
        lemma_numbered_concat(a, b.drop_last(), n);
        assert((a + b).drop_last() == a + b.drop_last());
        assert((a + b).last() == b.last());
    }
}

proof fn lemma_numbered_none(a: Seq<Seq<char>>, n: nat)
    requires
        forall|i: int| 0 <= i < a.len() ==> node_index(#[trigger] a[i]) != Some(n),
    ensures
        numbered(a, n) == Seq::<Seq<char>>::empty(),
    decreases a.len(),
{
    if a.len() > 0 {
        assert(node_index(a[a.len() - 1]) != Some(n));
        assert forall|i: int| 0 <= i < a.drop_last().len() implies node_index(
            #[trigger] a.drop_last()[i],
        ) != Some(n) by {
            assert(a.drop_last()[i] == a[i]);
        }
        lemma_numbered_none(a.drop_last(), n);
    }
}

proof fn lemma_insert_numbered(names: Seq<Seq<char>>, at: int, x: Seq<char>, n: nat, k: nat)
    requires
        in_number_order(names),
        node_index(x) == Some(n),
        0 <= at <= names.len(),
        forall|i: int| 0 <= i < at ==> node_index(#[trigger] names[i]).unwrap() <= n,
        forall|i: int| at <= i < names.len() ==> node_index(#[trigger] names[i]).unwrap() > n,
    ensures
        numbered(names.insert(at, x), k) == (if k == n {
            numbered(names, k).push(x)
        } else {
            numbered(names, k)
        }),
{
    let a = names.take(at);
    let b = names.skip(at);
    let one = seq![x];
    assert(names == a + b);
    assert(names.insert(at, x) == (a + one) + b);
    lemma_numbered_concat(a, b, k);
    lemma_numbered_concat(a, one, k);
    lemma_numbered_concat(a + one, b, k);
    assert(one.drop_last() == Seq::<Seq<char>>::empty());
    assert(numbered(one.drop_last(), k) == Seq::<Seq<char>>::empty());
    if k == n {
        assert forall|i: int| 0 <= i < b.len() implies node_index(#[trigger] b[i]) != Some(k) by {
            assert(b[i] == names[at + i]);
        }
        lemma_numbered_none(b, k);
        assert(numbered(one, k) == seq![x]);
        assert(numbered(names, k) =~= numbered(a, k));
        assert(numbered(names.insert(at, x), k) =~= numbered(names, k).push(x));
    } else {
        assert(numbered(one, k) == Seq::<Seq<char>>::empty());
        assert(numbered(names.insert(at, x), k) =~= numbered(names, k));
    }
}

/// Putting a name behind those of its number or a smaller one keeps the
/// order.
proof fn lemma_insert_in_order(names: Seq<Seq<char>>, at: int, x: Seq<char>, n: nat)
    requires
        in_number_order(names),
        node_index(x) == Some(n),
        0 <= at <= names.len(),
        forall|i: int| 0 <= i < at ==> node_index(#[trigger] names[i]).unwrap() <= n,
        forall|i: int| at <= i < names.len() ==> node_index(#[trigger] names[i]).unwrap() > n,
    ensures
        in_number_order(names.insert(at, x)),
{
    let after = names.insert(at, x);
    assert forall|k: int| 0 <= k < after.len() implies node_index(#[trigger] after[k]) is Some by {
        if k < at {
            assert(after[k] == names[k]);
        } else if k > at {
            assert(after[k] == names[k - 1]);
        }
    }
    assert forall|a: int, b: int| 0 <= a < b < after.len() implies node_index(
        #[trigger] after[a],
    ).unwrap() <= node_index(#[trigger] after[b]).unwrap() by {
        let pa = if a < at {
            a
        } else {
            a - 1
        };
        let pb = if b < at {
            b
        } else {
            b - 1
        };
        if a != at {
            assert(after[a] == names[pa]);
        }
        if b != at {
            assert(after[b] == names[pb]);
        }
    }
}

/// Where a name with number `n` goes: behind the last one whose number is not
/// greater.
fn place_of(out: &Vec<String>, n: u32) -> (at: usize)
    requires
        in_number_order(text::views(out@)),
    ensures
        at <= out@.len(),
        forall|i: int|
            0 <= i < at ==> node_index(#[trigger] text::views(out@)[i]).unwrap() <= n,
        forall|i: int|
            at <= i < out@.len() ==> node_index(#[trigger] text::views(out@)[i]).unwrap() > n,
{
    let ghost names = text::views(out@);
    let mut at: usize = out.len();
    while at > 0
        invariant_except_break
            at <= out@.len(),
        invariant
            names == text::views(out@),
            in_number_order(names),
            at <= out@.len(),
            forall|i: int| at <= i < out@.len() ==> node_index(#[trigger] names[i]).unwrap() > n,
        ensures
            at > 0 ==> node_index(names[at - 1]).unwrap() <= n,
        decreases at,
    {
        assert(names[at - 1] == out@[at - 1]@);
        let greater: bool = match event_index(out[at - 1].as_str()) {
            Some(m) => m > n,
            None => false,
        };
        if !greater {
            break;
        }
        at = at - 1;
    }
    assert forall|i: int| 0 <= i < at implies node_index(#[trigger] names[i]).unwrap() <= n by {
        if i < at - 1 {
            assert(node_index(names[i]).unwrap() <= node_index(names[at - 1]).unwrap());
        }
    }
    at
}

/// The device nodes of a directory, sorted by their number; names that are no
/// device nodes are left out, and names with the same number keep their
/// order.
pub fn event_nodes(names: &Vec<String>) -> (r: Vec<String>)
    ensures
        in_number_order(text::views(r@)),
        forall|n: nat| #[trigger]
            numbered(text::views(r@), n) == numbered(text::views(names@), n),
{
    let ghost all = text::views(names@);
    let mut out: Vec<String> = Vec::new();
    let mut i: usize = 0;
    while i < names.len()
        invariant
            i <= names.len(),
            all == text::views(names@),
            in_number_order(text::views(out@)),
            forall|n: nat| #[trigger]
                numbered(text::views(out@), n) == numbered(all.take(i as int), n),
        decreases names.len() - i,
    {
        assert(all.take(i + 1).drop_last() == all.take(i as int));
        assert(all.take(i + 1).last() == names@[i as int]@);
        let ghost before = text::views(out@);
        let ghost x = names@[i as int]@;
        if let Some(n) = event_index(names[i].as_str()) {
            let at: usize = place_of(&out, n);
            out.insert(at, names[i].clone());
            proof {
                assert(text::views(out@) == before.insert(at as int, x));
                lemma_insert_in_order(before, at as int, x, n as nat);
                assert forall|k: nat| #[trigger]
                    numbered(text::views(out@), k) == numbered(all.take(i + 1), k) by {
                    lemma_insert_numbered(before, at as int, x, n as nat, k);
                    assert(numbered(before, k) == numbered(all.take(i as int), k));
                }
            }
        } else {
            assert forall|n: nat| #[trigger]
                numbered(text::views(out@), n) == numbered(all.take(i + 1), n) by {
                assert(numbered(before, n) == numbered(all.take(i as int), n));
            }
        }
        i = i + 1;
    }
    assert(all.take(i as int) == all);
    out
}

// ---------------------------------------------------------------------
// Which devices are listened to
// ---------------------------------------------------------------------

/// The devices that are kept are exactly those that are to be kept, in their
/// order.
pub proof fn law_kept_devices_are_the_marked_ones(
    ds: Seq<(Option<Seq<char>>, Seq<char>)>,
    keep: Seq<bool>,
) -> (at: Seq<int>)
    requires
        ds.len() <= keep.len(),
    ensures
        crate::search::positions(at, ds.len()),
        kept(ds, keep).len() == at.len(),
        forall|i: int|
            0 <= i < at.len() ==> keep[#[trigger] at[i]] && kept(ds, keep)[i] == ds[at[i]],
        forall|i: int| 0 <= i < ds.len() && #[trigger] keep[i] ==> at.contains(i),
    decreases ds.len(),
{
    if ds.len() == 0 {
        Seq::empty()
    } else {
        let n = (ds.len() - 1) as nat;
        let front = law_kept_devices_are_the_marked_ones(ds.drop_last(), keep);
        crate::search::lemma_next_position(front, n);
        if keep[n as int] {
            front.push(n as int)
        } else {
            front
        }
    }
}

/// With a name pinned the devices of that name stay, whatever path is pinned;
/// with only a path pinned the device there stays; with nothing pinned all do.
pub proof fn law_pinned_device_stays(helper: EventDeviceHelper, d: TrackedDevice)
    ensures
        helper.pinned_device_name matches Some(n) ==> helper.keeps(device_view(d)) == (
        d.name matches Some(m) && m@ == n@),
        helper.pinned_device_name is None ==> (helper.pinned_device_path matches Some(p)
            ==> helper.keeps(device_view(d)) == paths::same_components(d.path@, p@)),
        helper.pinned_device_name is None && helper.pinned_device_path is None ==> helper.keeps(
            device_view(d),
        ),
{
}

/// A new pin is remembered and asks for a scan; the same pin again asks for
/// nothing. The open devices stay open until that scan.
pub proof fn law_new_pin_asks_for_a_scan(
    before: EventDeviceHelper,
    name: Option<Seq<char>>,
    path: Option<Seq<char>>,
    after: EventDeviceHelper,
    again: EventDeviceHelper,
)
    requires
        before.pinned_to(name, path, &after),
        after.pinned_to(name, path, &again),
    ensures
        name is Some <==> after.pinned_device_name is Some,
        name matches Some(n) ==> (after.pinned_device_name matches Some(s) && s@ == n),
        path is Some <==> after.pinned_device_path is Some,
        path matches Some(n) ==> (after.pinned_device_path matches Some(s) && s@ == n),
        after.devices == before.devices,
        again.needs_scan == after.needs_scan,
        before.needs_scan ==> after.needs_scan,
        before.pinned_device_name is None && name is Some ==> after.needs_scan,
        before.pinned_device_name is Some && name is None ==> after.needs_scan,
        (before.pinned_device_name matches Some(s) && name is Some && s@ != name.unwrap())
            ==> after.needs_scan,
        before.pinned_device_path is None && path is Some ==> after.needs_scan,
        before.pinned_device_path is Some && path is None ==> after.needs_scan,
        (before.pinned_device_path matches Some(s) && path is Some && s@ != path.unwrap())
            ==> after.needs_scan,
{
}

/// The device that a pinned name opens is the first of that name.
pub proof fn law_first_of_the_name_is_opened(nodes: Seq<OpenedNode>, name: Seq<char>)
    ensures
        match first_named(nodes, name) {
            Some(i) => {
                &&& 0 <= i < nodes.len()
                &&& nodes[i].name matches Some(n) && n@ == name
                &&& forall|k: int|
                    0 <= k < i ==> !((#[trigger] nodes[k]).name matches Some(n) && n@ == name)
            },
            None => forall|k: int|
                0 <= k < nodes.len() ==> !((#[trigger] nodes[k]).name matches Some(n) && n@ == name),
        },
    decreases nodes.len(),
{
    if nodes.len() > 0 {
        let front = nodes.drop_last();
        law_first_of_the_name_is_opened(front, name);
        assert forall|k: int| 0 <= k < front.len() implies front[k] == #[trigger] nodes[k] by {}
    }
}

/// Keyboards have a Tab, a left Shift or a Z key, and mice a side or an extra
/// button; a device that reports no keys is neither.
pub proof fn law_keys_tell_the_type(k: SupportedKeys)
    ensures
        k.tab ==> is_of_type(InputDeviceType::Keyboard, Some(k)),
        k.left_shift ==> is_of_type(InputDeviceType::Keyboard, Some(k)),
        k.z ==> is_of_type(InputDeviceType::Keyboard, Some(k)),
        !k.tab && !k.left_shift && !k.z ==> !is_of_type(InputDeviceType::Keyboard, Some(k)),
        k.side ==> is_of_type(InputDeviceType::Mouse, Some(k)),
        k.extra ==> is_of_type(InputDeviceType::Mouse, Some(k)),
        !k.side && !k.extra ==> !is_of_type(InputDeviceType::Mouse, Some(k)),
        !is_of_type(InputDeviceType::Keyboard, None),
        !is_of_type(InputDeviceType::Mouse, None),
{
}

/// Without a pin every device of the wanted type is open after a scan, and
/// every device that the scan opened is of that type and was not open.
pub proof fn law_all_devices_of_the_type_are_open(
    ds: Seq<(Option<Seq<char>>, Seq<char>)>,
    device_type: InputDeviceType,
    nodes: Seq<OpenedNode>,
) -> (at: Seq<int>)
    ensures
        detected(ds, device_type, nodes).len() == ds.len() + at.len(),
        detected(ds, device_type, nodes).take(ds.len() as int) == ds,
        crate::search::positions(at, nodes.len()),
        forall|i: int|
            0 <= i < at.len() ==> {
                &&& is_of_type(device_type, nodes[#[trigger] at[i]].keys)
                &&& !has_path(ds, nodes[at[i]].path@)
                &&& detected(ds, device_type, nodes)[ds.len() + i].0 == text::opt_view(
                    nodes[at[i]].name,
                )
                &&& detected(ds, device_type, nodes)[ds.len() + i].1 == nodes[at[i]].path@
            },
        forall|k: int|
            0 <= k < nodes.len() && is_of_type(device_type, (#[trigger] nodes[k]).keys)
                ==> has_path(detected(ds, device_type, nodes), nodes[k].path@),
    decreases nodes.len(),
{
    let all = detected(ds, device_type, nodes);
    if nodes.len() == 0 {
        assert(ds.take(ds.len() as int) =~= ds);
        Seq::empty()
    } else {
        let n = (nodes.len() - 1) as nat;
        let before = nodes.drop_last();
        let front = detected(ds, device_type, before);
        let at = law_all_devices_of_the_type_are_open(ds, device_type, before);
        let node = nodes.last();
        crate::search::lemma_next_position(at, n);
        assert forall|i: int| 0 <= i < at.len() implies before[#[trigger] at[i]] == nodes[at[i]] by {}
        assert forall|p: Seq<char>| has_path(front, p) implies #[trigger] has_path(all, p) by {
            let i = choose|i: int|
                0 <= i < front.len() && paths::same_components((#[trigger] front[i]).1, p);
            assert(all[i] == front[i]);
        }
        assert forall|k: int|
            0 <= k < nodes.len() && is_of_type(
                device_type,
                (#[trigger] nodes[k]).keys,
            ) implies has_path(all, nodes[k].path@) by {
            if k < n {
                assert(before[k] == nodes[k]);
            } else if !has_path(front, node.path@) {
                assert(all[front.len() as int].1 == node.path@);
            }
        }
        assert(all.take(ds.len() as int) =~= front.take(ds.len() as int));
        if !has_path(front, node.path@) && is_of_type(device_type, node.keys) {
            if has_path(ds, node.path@) {
                let i = choose|i: int|
                    0 <= i < ds.len() && paths::same_components((#[trigger] ds[i]).1, node.path@);
                assert(front.take(ds.len() as int)[i] == ds[i]);
                assert(front[i] == ds[i]);
            }
            at.push(n as int)
        } else {
            at
        }
    }
}

/// Devices are looked for at once when a scan is wanted or none was made, and
/// otherwise every two seconds.
pub proof fn law_scans_come_every_two_seconds(since: u128)
    ensures
        scan_is_due(true, Some(since)),
        scan_is_due(true, None),
        scan_is_due(false, None),
        scan_is_due(false, Some(since)) == (since >= 2000),
{
}

/// Each device that can be read is ready, and each that hung up with nothing
/// to read is dead; none is both, and no other is either.
pub proof fn law_readable_devices_are_ready(flags: Seq<PollFlags>, n: nat, i: usize)
    requires
        n <= flags.len() <= usize::MAX,
    ensures
        ready_below(flags, n).contains(i) == (i < n && flags[i as int].readable),
        dead_below(flags, n).contains(i) == (i < n && !flags[i as int].readable
            && flags[i as int].hung_up_or_error),
        forall|a: int, b: int|
            0 <= a < b < ready_below(flags, n).len() ==> #[trigger] ready_below(flags, n)[a]
                < #[trigger] ready_below(flags, n)[b],
        forall|a: int, b: int|
            0 <= a < b < dead_below(flags, n).len() ==> #[trigger] dead_below(flags, n)[a]
                < #[trigger] dead_below(flags, n)[b],
        forall|a: int|
            0 <= a < ready_below(flags, n).len() ==> #[trigger] ready_below(flags, n)[a] < n,
        forall|a: int|
            0 <= a < dead_below(flags, n).len() ==> #[trigger] dead_below(flags, n)[a] < n,
    decreases n,
{
    if n > 0 {
        let m = (n - 1) as nat;
        law_readable_devices_are_ready(flags, m, i);
        let ready = ready_below(flags, m);
        let dead = dead_below(flags, m);
        let x = m as usize;
        assert(ready.push(x)[ready.len() as int] == x);
        assert(dead.push(x)[dead.len() as int] == x);
        assert(ready.push(x).contains(i) == (ready.contains(i) || i == x)) by {
            if ready.contains(i) {
                let k = choose|k: int| 0 <= k < ready.len() && ready[k] == i;
                assert(ready.push(x)[k] == i);
            }
        }
        assert(dead.push(x).contains(i) == (dead.contains(i) || i == x)) by {
            if dead.contains(i) {
                let k = choose|k: int| 0 <= k < dead.len() && dead[k] == i;
                assert(dead.push(x)[k] == i);
            }
        }
    }
}

/// A device node is `event` and a number; nothing else is one.
pub proof fn law_event_nodes_are_numbered(n: u32, name: Seq<char>)
    ensures
        node_index("event"@ + numerals::decimal(n as nat)) == Some(n as nat),
        !text::starts(name, "event"@) ==> node_index(name) is None,
        node_index("event"@) is None,
{
    let s = "event"@ + numerals::decimal(n as nat);
    assert(s.take("event"@.len() as int) =~= "event"@);
    assert(s.skip("event"@.len() as int) =~= numerals::decimal(n as nat));
    numerals::law_written_number_reads_back(n as nat, 10, false, u32::MAX as nat);
    assert("event"@.skip("event"@.len() as int) =~= Seq::<char>::empty());
    assert("event"@.take("event"@.len() as int) =~= "event"@);
}

/// The nodes of one number are exactly those names that have it, in the order
/// in which they were listed.
pub proof fn law_nodes_of_a_number_are_all(names: Seq<Seq<char>>, n: nat) -> (at: Seq<int>)
    ensures
        crate::search::positions(at, names.len()),
        numbered(names, n).len() == at.len(),
        forall|i: int|
            0 <= i < at.len() ==> node_index(names[#[trigger] at[i]]) == Some(n) && numbered(
                names,
                n,
            )[i] == names[at[i]],
        forall|i: int|
            0 <= i < names.len() && node_index(#[trigger] names[i]) == Some(n) ==> at.contains(i),
    decreases names.len(),
{
    if names.len() == 0 {
        Seq::empty()
    } else {
        let m = (names.len() - 1) as nat;
        let before = names.drop_last();
        let front = law_nodes_of_a_number_are_all(before, n);
        crate::search::lemma_next_position(front, m);
        assert forall|i: int| 0 <= i < m implies before[i] == #[trigger] names[i] by {}
        if node_index(names.last()) == Some(n) {
            front.push(m as int)
        } else {
            front
        }
    }
}

/// After a reset nothing is pinned or open, and a scan is wanted.
pub proof fn law_reset_starts_over(helper: EventDeviceHelper, device_type: InputDeviceType)
    requires
        helper.is_reset(device_type),
    ensures
        helper.device_type == device_type,
        helper.pinned_device_name is None,
        helper.pinned_device_path is None,
        helper.devices@.len() == 0,
        helper.needs_scan,
        helper.wants_scan(),
        !helper.pinned(),
{
}

/// A scan changes neither the type that is looked for nor what is pinned.
pub proof fn law_setup_is_type_and_pins(
    a: EventDeviceHelper,
    b: EventDeviceHelper,
    d: TrackedDevice,
)
    requires
        a.same_setup(&b),
    ensures
        a.device_type == b.device_type,
        a.pinned_device_name == b.pinned_device_name,
        a.pinned_device_path == b.pinned_device_path,
        a.pinned() == b.pinned(),
        a.keeps(device_view(d)) == b.keeps(device_view(d)),
{
}

/// A scan is wanted while no device is open, and whenever one was asked for.
pub proof fn law_without_devices_a_scan_is_wanted(helper: EventDeviceHelper)
    ensures
        helper.devices@.len() == 0 ==> helper.wants_scan(),
        helper.needs_scan ==> helper.wants_scan(),
        helper.devices@.len() > 0 && !helper.needs_scan ==> !helper.wants_scan(),
        helper.pinned_device_name is Some || helper.pinned_device_path is Some <==> helper.pinned(),
{
}

/// What is reported of the new devices is their name and path, in order; one
/// without a name is `Unknown`.
pub proof fn law_devices_are_shown_by_name(ds: Seq<(Option<Seq<char>>, Seq<char>)>, i: int)
    requires
        0 <= i < ds.len(),
    ensures
        shown(ds).len() == ds.len(),
        ds[i].0 matches Some(n) ==> shown(ds)[i].0 == n,
        ds[i].0 is None ==> shown(ds)[i].0 == "Unknown"@,
        shown(ds)[i].1 == ds[i].1,
{
}

/// Nodes are listed by their number, not by their name.
pub proof fn law_nodes_are_in_number_order(names: Seq<Seq<char>>, i: int, j: int, m: u32, n: u32)
    requires
        in_number_order(names),
        0 <= i < names.len(),
        0 <= j < names.len(),
        names[i] == "event"@ + numerals::decimal(m as nat),
        names[j] == "event"@ + numerals::decimal(n as nat),
        m < n,
    ensures
        i < j,
{
    law_event_nodes_are_numbered(m, names[i]);
    law_event_nodes_are_numbered(n, names[j]);
    if j < i {
        assert(node_index(names[j]).unwrap() <= node_index(names[i]).unwrap());
    }
}

} // verus!
