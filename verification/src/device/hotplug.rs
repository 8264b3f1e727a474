//! Hot-plug diffing and sticky re-binding: which ports appeared or vanished between two
//! listings, and whether a device is the one a project is bound to.
use crate::device::list::{copy_opt, SerialDevice};
use crate::project::types::{DeviceSettings, StickyHwid};
use crate::text::{ascii_lower, ascii_lower_chars, chars_eq, str_chars, string_eq};
use vstd::prelude::*;

verus! {

#[derive(Debug, Clone, PartialEq, Eq, Default)]
pub struct DeviceDiff {
    pub added: Vec<SerialDevice>,
    pub removed: Vec<String>,
}

impl DeviceDiff {
    pub fn is_empty(&self) -> (r: bool)
        ensures
            r == (self.added@.len() == 0 && self.removed@.len() == 0),
    {
        self.added.len() == 0 && self.removed.len() == 0
    }
}

/// The wire shape of a device-change notification.
#[derive(Debug, Clone)]
pub struct DeviceChanged {
    pub added: Vec<SerialDevice>,
    pub removed: Vec<String>,
}

pub open spec fn has_port(devs: Seq<SerialDevice>, port: Seq<char>) -> bool {
    exists|i: int| 0 <= i < devs.len() && devs[i].port@ == port
}

/// The devices of `current` whose port is not in `previous`, in order.
pub open spec fn added_spec(previous: Seq<SerialDevice>, current: Seq<SerialDevice>) -> Seq<SerialDevice>
    decreases current.len(),
{
    if current.len() == 0 {
        Seq::empty()
    } else {
        let prev = added_spec(previous, current.drop_last());
        if has_port(previous, current.last().port@) {
            prev
        } else {
            prev.push(current.last())
        }
    }
}

/// The ports of `previous` that are not in `current`, in order.
pub open spec fn removed_spec(previous: Seq<SerialDevice>, current: Seq<SerialDevice>) -> Seq<Seq<char>>
    decreases previous.len(),
{
    if previous.len() == 0 {
        Seq::empty()
    } else {
        let prev = removed_spec(previous.drop_last(), current);
        if has_port(current, previous.last().port@) {
            prev
        } else {
            prev.push(previous.last().port@)
        }
    }
}

fn has_port_exec(devs: &[SerialDevice], port: &String) -> (r: bool)
    ensures
        r == has_port(devs@, port@),
{
    let mut i: usize = 0;
    while i < devs.len()
        invariant
            i <= devs.len(),
            forall|j: int| 0 <= j < i ==> devs@[j].port@ != port@,
        decreases devs.len() - i,
    {
        if string_eq(&devs[i].port, port) {
            return true;
        }
        i += 1;
    }
    false
}

/// The waits, in milliseconds, between the device listings taken after an upload, while
/// the board re-enumerates.
pub open spec fn settle_delays() -> Seq<u64> {
    seq![300u64, 500u64, 700u64, 1000u64]
}

/// After an upload the port list is taken again until nothing known before looks gone:
/// given the ports known before the upload, the latest listing and how many retries were
/// made, the wait before the next listing, or `None` once the list has settled or the
/// retries are spent.
pub fn settle_wait(known: &[SerialDevice], current: &[SerialDevice], retries: usize) -> (r: Option<u64>)
    ensures
        r == (if removed_spec(known@, current@).len() == 0 || retries >= settle_delays().len() {
            None
        } else {
            Some(settle_delays()[retries as int])
        }),
{
    if diff_devices(known, current).removed.len() == 0 {
        return None;
    }
    if retries == 0 {
        Some(300)
    } else if retries == 1 {
        Some(500)
    } else if retries == 2 {
        Some(700)
    } else if retries == 3 {
        Some(1000)
    } else {
        None
    }
}

/// Ports present in `current` but not `previous` are added; ports present in `previous`
/// but not `current` are removed. Matched by port path alone.
pub fn diff_devices(previous: &[SerialDevice], current: &[SerialDevice]) -> (r: DeviceDiff)
    ensures
        r.added@ == added_spec(previous@, current@),
        r.removed@.map_values(|s: String| s@) == removed_spec(previous@, current@),
{
    let mut added: Vec<SerialDevice> = Vec::new();
    let mut i: usize = 0;
    while i < current.len()
        invariant
            i <= current.len(),
            added@ == added_spec(previous@, current@.take(i as int)),
        decreases current.len() - i,
    {
        proof {
            assert(current@.take(i + 1).drop_last() == current@.take(i as int));
            assert(current@.take(i + 1).last() == current@[i as int]);
        }
        if !has_port_exec(previous, &current[i].port) {
            added.push(current[i].duplicate());
        }
        i += 1;
    }
    assert(current@.take(current.len() as int) == current@);
    let mut removed: Vec<String> = Vec::new();
    let mut k: usize = 0;
    while k < previous.len()
        invariant
            k <= previous.len(),
            removed@.map_values(|s: String| s@) == removed_spec(previous@.take(k as int), current@),
        decreases previous.len() - k,
    {
        proof {
            assert(previous@.take(k + 1).drop_last() == previous@.take(k as int));
            assert(previous@.take(k + 1).last() == previous@[k as int]);
        }
        if !has_port_exec(current, &previous[k].port) {
            let ghost before = removed@.map_values(|s: String| s@);
            removed.push(previous[k].port.clone());
            assert(removed@.map_values(|s: String| s@) =~= before.push(previous@[k as int].port@));
        }
        k += 1;
    }
    assert(previous@.take(previous.len() as int) == previous@);
    DeviceDiff { added, removed }
}

/// `str::eq_ignore_ascii_case`.
pub open spec fn eq_ignore_case(a: Seq<char>, b: Seq<char>) -> bool {
    ascii_lower(a) == ascii_lower(b)
}

/// A device matches a stored identity when its vendor and product ids agree (ignoring
/// ASCII case) and, only if the identity records a serial number, its serial agrees too.
pub open spec fn matches_sticky_spec(d: SerialDevice, s: StickyHwid) -> bool {
    &&& d.vid matches Some(v) && eq_ignore_case(v@, s.vid@)
    &&& d.pid matches Some(p) && eq_ignore_case(p@, s.pid@)
    &&& match s.serial {
        Some(want) => d.serial matches Some(got) && got@ == want@,
        None => true,
    }
}

fn eq_ignore_case_exec(a: &str, b: &str) -> (r: bool)
    ensures
        r == eq_ignore_case(a@, b@),
{
    let av = str_chars(a);
    let bv = str_chars(b);
    let al = ascii_lower_chars(av.as_slice());
    let bl = ascii_lower_chars(bv.as_slice());
    chars_eq(al.as_slice(), bl.as_slice())
}

pub fn matches_sticky(device: &SerialDevice, sticky: &StickyHwid) -> (r: bool)
    ensures
        r == matches_sticky_spec(*device, *sticky),
{
    let vid_matches = match &device.vid {
        Some(v) => eq_ignore_case_exec(v.as_str(), sticky.vid.as_str()),
        None => false,
    };
    let pid_matches = match &device.pid {
        Some(p) => eq_ignore_case_exec(p.as_str(), sticky.pid.as_str()),
        None => false,
    };
    if !vid_matches || !pid_matches {
        return false;
    }
    match &sticky.serial {
        Some(want) => match &device.serial {
            Some(s) => string_eq(s, want),
            None => false,
        },
        None => true,
    }
}

/// The identity to remember for a device: present only when it reports both ids.
pub fn sticky_hwid_for(device: &SerialDevice) -> (r: Option<StickyHwid>)
    ensures
        match r {
            Some(s) => device.vid == Some(s.vid) && device.pid == Some(s.pid) && s.serial == device.serial,
            None => device.vid is None || device.pid is None,
        },
{
    match (&device.vid, &device.pid) {
        (Some(v), Some(p)) => Some(StickyHwid { vid: v.clone(), pid: p.clone(), serial: copy_opt(&device.serial) }),
        _ => None,
    }
}


/// The index of the first device matching `sticky`, or -1.
pub open spec fn first_match(devs: Seq<SerialDevice>, sticky: StickyHwid) -> int
    decreases devs.len(),
{
    if devs.len() == 0 {
        -1
    } else {
        let r = first_match(devs.drop_last(), sticky);
        if r >= 0 {
            r
        } else if matches_sticky_spec(devs.last(), sticky) {
            devs.len() - 1
        } else {
            -1
        }
    }
}

proof fn lemma_first_match_prefix(devs: Seq<SerialDevice>, sticky: StickyHwid, n: int)
    requires
        0 <= n <= devs.len(),
        first_match(devs.take(n), sticky) >= 0,
    ensures
        first_match(devs, sticky) == first_match(devs.take(n), sticky),
    decreases devs.len() - n,
{
    if n < devs.len() {
        assert(devs.take(n + 1).drop_last() =~= devs.take(n));
        lemma_first_match_prefix(devs, sticky, n + 1);
    } else {
        assert(devs.take(n) =~= devs);
    }
}

proof fn lemma_first_match_bounds(devs: Seq<SerialDevice>, sticky: StickyHwid)
    ensures
        -1 <= first_match(devs, sticky) < devs.len(),
    decreases devs.len(),
{
    if devs.len() > 0 {
        lemma_first_match_bounds(devs.drop_last(), sticky);
    }
}

/// The port a project re-binds to when devices appear: the first newly added device that
/// matches its stored identity, unless that is already its preferred port. `None` when
/// nothing changes.
pub open spec fn rebound_port_spec(settings: DeviceSettings, added: Seq<SerialDevice>) -> Option<Seq<char>> {
    match settings.sticky_hwid {
        None => None,
        Some(sticky) => {
            let i = first_match(added, sticky);
            if i < 0 {
                None
            } else if opt_view_str(settings.preferred_port) == Some(added[i].port@) {
                None
            } else {
                Some(added[i].port@)
            }
        },
    }
}

pub open spec fn opt_view_str(o: Option<String>) -> Option<Seq<char>> {
    match o {
        Some(s) => Some(s@),
        None => None,
    }
}

pub fn rebound_port(settings: &DeviceSettings, added: &[SerialDevice]) -> (r: Option<String>)
    ensures
        opt_view_str(r) == rebound_port_spec(*settings, added@),
{
    let sticky = match &settings.sticky_hwid {
        Some(s) => s,
        None => return None,
    };
    let mut i: usize = 0;
    while i < added.len()
        invariant
            i <= added@.len(),
            settings.sticky_hwid == Some(*sticky),
            first_match(added@.take(i as int), *sticky) == -1,
        decreases added@.len() - i,
    {
        assert(added@.take(i + 1).drop_last() =~= added@.take(i as int));
        if matches_sticky(&added[i], sticky) {
            proof {
                assert(added@.take(i + 1).last() == added@[i as int]);
                lemma_first_match_prefix(added@, *sticky, i + 1);
            }
            let same = match &settings.preferred_port {
                Some(p) => string_eq(p, &added[i].port),
                None => false,
            };
            if same {
                return None;
            }
            return Some(added[i].port.clone());
        }
        i += 1;
    }
    assert(added@.take(added@.len() as int) =~= added@);
    None
}

/// The device settings after the user picks `port`: it becomes the preferred port, and
/// when the listed device on that port reports its ids, its identity is remembered (the
/// first device listed on that port counts).
pub open spec fn selected_settings_ok(
    old: DeviceSettings,
    port: Seq<char>,
    devices: Seq<SerialDevice>,
    new: DeviceSettings,
) -> bool {
    &&& opt_view_str(new.preferred_port) == Some(port)
    &&& match first_on_port(devices, port) {
        Some(d) => match sticky_of(d) {
            Some(s) => new.sticky_hwid == Some(s),
            None => new.sticky_hwid == old.sticky_hwid,
        },
        None => new.sticky_hwid == old.sticky_hwid,
    }
}

/// The identity a device yields, if it reports both ids.
pub open spec fn sticky_of(d: SerialDevice) -> Option<StickyHwid> {
    match (d.vid, d.pid) {
        (Some(v), Some(p)) => Some(StickyHwid { vid: v, pid: p, serial: d.serial }),
        _ => None,
    }
}

/// The first device listed on `port`.
pub open spec fn first_on_port(devs: Seq<SerialDevice>, port: Seq<char>) -> Option<SerialDevice>
    decreases devs.len(),
{
    if devs.len() == 0 {
        None
    } else {
        match first_on_port(devs.drop_last(), port) {
            Some(d) => Some(d),
            None => if devs.last().port@ == port {
                Some(devs.last())
            } else {
                None
            },
        }
    }
}

proof fn lemma_first_on_port_prefix(devs: Seq<SerialDevice>, port: Seq<char>, n: int)
    requires
        0 <= n <= devs.len(),
        first_on_port(devs.take(n), port) is Some,
    ensures
        first_on_port(devs, port) == first_on_port(devs.take(n), port),
    decreases devs.len() - n,
{
    if n < devs.len() {
        assert(devs.take(n + 1).drop_last() =~= devs.take(n));
        lemma_first_on_port_prefix(devs, port, n + 1);
    } else {
        assert(devs.take(n) =~= devs);
    }
}

pub fn select_port(settings: DeviceSettings, port: &str, devices: &[SerialDevice]) -> (r: DeviceSettings)
    ensures
        selected_settings_ok(settings, port@, devices@, r),
{
    let mut out = DeviceSettings {
        preferred_port: Some(crate::text::str_to_string(port)),
        sticky_hwid: settings.sticky_hwid,
    };
    let mut i: usize = 0;
    while i < devices.len()
        invariant
            i <= devices@.len(),
            opt_view_str(out.preferred_port) == Some(port@),
            out.sticky_hwid == settings.sticky_hwid,
            first_on_port(devices@.take(i as int), port@) is None,
        decreases devices@.len() - i,
    {
        assert(devices@.take(i + 1).drop_last() =~= devices@.take(i as int));
        assert(devices@.take(i + 1).last() == devices@[i as int]);
        if crate::text::str_eq(devices[i].port.as_str(), port) {
            proof {
                lemma_first_on_port_prefix(devices@, port@, i + 1);
            }
            match sticky_hwid_for(&devices[i]) {
                Some(s) => {
                    out.sticky_hwid = Some(s);
                },
                None => {},
            }
            return out;
        }
        i += 1;
    }
    assert(devices@.take(devices@.len() as int) =~= devices@);
    out
}
proof fn lemma_added_empty_when_covered(previous: Seq<SerialDevice>, current: Seq<SerialDevice>)
    requires
        forall|i: int| 0 <= i < current.len() ==> has_port(previous, #[trigger] current[i].port@),
    ensures
        added_spec(previous, current).len() == 0,
    decreases current.len(),
{
    if current.len() > 0 {
        let head = current.drop_last();
        assert forall|i: int| 0 <= i < head.len() implies has_port(previous, #[trigger] head[i].port@) by {
            assert(head[i] == current[i]);
        }
        lemma_added_empty_when_covered(previous, head);
        assert(has_port(previous, current[current.len() - 1].port@));
    }
}

proof fn lemma_removed_empty_when_covered(previous: Seq<SerialDevice>, current: Seq<SerialDevice>)
    requires
        forall|i: int| 0 <= i < previous.len() ==> has_port(current, #[trigger] previous[i].port@),
    ensures
        removed_spec(previous, current).len() == 0,
    decreases previous.len(),
{
    if previous.len() > 0 {
        let head = previous.drop_last();
        assert forall|i: int| 0 <= i < head.len() implies has_port(current, #[trigger] head[i].port@) by {
            assert(head[i] == previous[i]);
        }
        lemma_removed_empty_when_covered(head, current);
        assert(has_port(current, previous[previous.len() - 1].port@));
    }
}

/// Diffing a listing against itself reports nothing added and nothing removed.
pub proof fn law_no_change_yields_an_empty_diff(devices: Seq<SerialDevice>)
    ensures
        added_spec(devices, devices).len() == 0,
        removed_spec(devices, devices).len() == 0,
{
    assert forall|i: int| 0 <= i < devices.len() implies has_port(devices, #[trigger] devices[i].port@) by {
        assert(devices[i].port@ == devices[i].port@);
    }
    lemma_added_empty_when_covered(devices, devices);
    lemma_removed_empty_when_covered(devices, devices);
}
} // verus!
