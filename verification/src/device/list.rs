//! The serial devices `pio device list --serial` reports: each device's USB vendor and
//! product ids and serial number, read from its hardware id, and the USB-serial bridge
//! chip its vendor id is known for.
use crate::casing::{to_uppercase, unicode_uppercase};
use crate::matching::{captures_view, regex_captures, regex_captures_result};
use crate::diag::parser::group;
use crate::text::{chars_eq, str_chars, str_to_string, string_from_chars};
use vstd::prelude::*;

verus! {

#[derive(Debug, Clone, PartialEq, Eq)]
pub struct SerialDevice {
    pub port: String,
    pub description: String,
    pub hwid: String,
    pub vid: Option<String>,
    pub pid: Option<String>,
    pub serial: Option<String>,
    pub known_bridge: Option<String>,
}

pub open spec fn opt_view(o: Option<String>) -> Option<Seq<char>> {
    match o {
        Some(s) => Some(s@),
        None => None,
    }
}

pub fn copy_opt(o: &Option<String>) -> (r: Option<String>)
    ensures
        r == *o,
{
    match o {
        Some(s) => Some(s.clone()),
        None => None,
    }
}

impl SerialDevice {
    /// A field-by-field copy.
    pub fn duplicate(&self) -> (r: SerialDevice)
        ensures
            r == *self,
    {
        SerialDevice {
            port: self.port.clone(),
            description: self.description.clone(),
            hwid: self.hwid.clone(),
            vid: copy_opt(&self.vid),
            pid: copy_opt(&self.pid),
            serial: copy_opt(&self.serial),
            known_bridge: copy_opt(&self.known_bridge),
        }
    }
}

/// The bridge chip family for a vendor id, compared case-insensitively.
pub open spec fn known_bridge_spec(vid: Seq<char>) -> Option<Seq<char>> {
    let u = unicode_uppercase(vid);
    if u == "10C4"@ {
        Some("CP210x"@)
    } else if u == "1A86"@ {
        Some("CH340"@)
    } else if u == "0403"@ {
        Some("FTDI"@)
    } else {
        None
    }
}

pub fn known_bridge_for(vid: &str) -> (r: Option<String>)
    ensures
        opt_view(r) == known_bridge_spec(vid@),
{
    let upper = to_uppercase(vid);
    let u = str_chars(upper.as_str());
    let a = str_chars("10C4");
    let b = str_chars("1A86");
    let c = str_chars("0403");
    if chars_eq(u.as_slice(), a.as_slice()) {
        Some(str_to_string("CP210x"))
    } else if chars_eq(u.as_slice(), b.as_slice()) {
        Some(str_to_string("CH340"))
    } else if chars_eq(u.as_slice(), c.as_slice()) {
        Some(str_to_string("FTDI"))
    } else {
        None
    }
}

/// `VID:PID=vvvv:pppp` in a hardware id.
pub const VID_PID_RE: &'static str = r"VID:PID=([0-9A-Fa-f]{4}):([0-9A-Fa-f]{4})";

/// `SER=...` in a hardware id.
pub const SER_RE: &'static str = r"SER=(\S+)";

/// Group `i` of a match, uppercased.
pub open spec fn upper_group(c: Option<Seq<Option<Seq<char>>>>, i: int) -> Option<Seq<char>> {
    match c {
        Some(g) => match group(g, i) {
            Some(t) => Some(unicode_uppercase(t)),
            None => None,
        },
        None => None,
    }
}

pub open spec fn plain_group(c: Option<Seq<Option<Seq<char>>>>, i: int) -> Option<Seq<char>> {
    match c {
        Some(g) => group(g, i),
        None => None,
    }
}

/// What a device record says, given the matches of the vendor/product pattern and of the
/// serial pattern on its hardware id: the ids uppercased, the serial as written, and the
/// bridge chip of the vendor id.
pub open spec fn device_ok(
    d: SerialDevice,
    port: Seq<char>,
    description: Seq<char>,
    hwid: Seq<char>,
    vid_pid: Option<Seq<Option<Seq<char>>>>,
    ser: Option<Seq<Option<Seq<char>>>>,
) -> bool {
    &&& d.port@ == port
    &&& d.description@ == description
    &&& d.hwid@ == hwid
    &&& opt_view(d.vid) == upper_group(vid_pid, 1)
    &&& opt_view(d.pid) == upper_group(vid_pid, 2)
    &&& opt_view(d.serial) == plain_group(ser, 1)
    &&& opt_view(d.known_bridge) == match upper_group(vid_pid, 1) {
        Some(v) => known_bridge_spec(v),
        None => None,
    }
}

fn group_at(c: &Option<Vec<Option<String>>>, i: usize) -> (r: Option<String>)
    ensures
        opt_view(r) == plain_group(captures_view(*c), i as int),
{
    match c {
        Some(g) => {
            if i < g.len() {
                match &g[i] {
                    Some(s) => Some(s.clone()),
                    None => None,
                }
            } else {
                None
            }
        },
        None => None,
    }
}

/// The device record of one reported device, given the two patterns' matches on its
/// hardware id (group 0 first).
pub fn device_from_captures(
    port: String,
    description: String,
    hwid: String,
    vid_pid: Option<Vec<Option<String>>>,
    ser: Option<Vec<Option<String>>>,
) -> (r: SerialDevice)
    ensures
        device_ok(r, port@, description@, hwid@, captures_view(vid_pid), captures_view(ser)),
{
    let vid = match group_at(&vid_pid, 1) {
        Some(v) => Some(to_uppercase(v.as_str())),
        None => None,
    };
    let pid = match group_at(&vid_pid, 2) {
        Some(p) => Some(to_uppercase(p.as_str())),
        None => None,
    };
    let serial = group_at(&ser, 1);
    let known_bridge = match &vid {
        Some(v) => known_bridge_for(v.as_str()),
        None => None,
    };
    SerialDevice { port, description, hwid, vid, pid, serial, known_bridge }
}

/// The device record of one reported device (port, description, hardware id).
pub fn device_from_raw(port: String, description: String, hwid: String) -> (r: SerialDevice)
    ensures
        device_ok(
            r,
            port@,
            description@,
            hwid@,
            regex_captures_result(VID_PID_RE@, hwid@),
            regex_captures_result(SER_RE@, hwid@),
        ),
{
    let vid_pid = regex_captures(VID_PID_RE, hwid.as_str());
    let ser = regex_captures(SER_RE, hwid.as_str());
    device_from_captures(port, description, hwid, vid_pid, ser)
}

} // verus!
