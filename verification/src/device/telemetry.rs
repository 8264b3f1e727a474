//! Board telemetry: for Espressif boards, the chip, MAC address and flash of the connected
//! device as `esptool flash_id` reports them; for any other board, only whether a port is
//! selected. A missing or failing adapter gives a reason to show, never an error.
use crate::diag::parser::{group, group_text};
use crate::matching::{captures_view, opt_view, regex_captures, regex_captures_result, regex_find, regex_find_result};
use crate::pio::boards::BoardBrief;
use crate::text::{ascii_lower, ascii_lower_chars, starts_with, starts_with_str, str_chars, str_to_string, string_from_chars, strings_from, strings_view, sub_chars, trim, trim_chars};
use vstd::prelude::*;

verus! {

#[derive(Debug, Clone)]
pub struct Telemetry {
    pub adapter: String,
    pub connected: bool,
    pub port: Option<String>,
    pub chip: Option<String>,
    pub flash_size: Option<String>,
    pub flash_vendor: Option<String>,
    pub mac: Option<String>,
    pub board: Option<BoardBrief>,
    pub unavailable_reason: Option<String>,
}

/// The two names the esptool entry point goes by.
#[derive(Debug, Clone, Copy, PartialEq, Eq)]
pub enum EsptoolEntrypoint {
    /// `esptool.py`
    Py,
    /// `esptool`
    Plain,
}

impl EsptoolEntrypoint {
    pub open spec fn name_spec(self) -> Seq<char> {
        match self {
            EsptoolEntrypoint::Py => "esptool.py"@,
            EsptoolEntrypoint::Plain => "esptool"@,
        }
    }

    pub fn name(self) -> (r: &'static str)
        ensures
            r@ == self.name_spec(),
    {
        match self {
            EsptoolEntrypoint::Py => "esptool.py",
            EsptoolEntrypoint::Plain => "esptool",
        }
    }
}

/// Which esptool entry point worked, once one has: later refreshes try only that one.
pub struct EsptoolEntrypointCache {
    worked: Option<EsptoolEntrypoint>,
}

impl EsptoolEntrypointCache {
    pub closed spec fn view(&self) -> Option<EsptoolEntrypoint> {
        self.worked
    }

    pub fn new() -> (r: EsptoolEntrypointCache)
        ensures
            r.view() is None,
    {
        EsptoolEntrypointCache { worked: None }
    }

    /// The entry points to try, in order: the one that worked before, else `esptool.py`
    /// and then `esptool`.
    pub fn candidates(&self) -> (r: Vec<EsptoolEntrypoint>)
        ensures
            r@ == match self.view() {
                Some(e) => seq![e],
                None => seq![EsptoolEntrypoint::Py, EsptoolEntrypoint::Plain],
            },
    {
        match self.worked {
            Some(e) => vec![e],
            None => vec![EsptoolEntrypoint::Py, EsptoolEntrypoint::Plain],
        }
    }

    /// Records the entry point that worked, unless one was already recorded.
    pub fn remember(&mut self, e: EsptoolEntrypoint)
        ensures
            final(self).view() == (match old(self).view() {
                Some(x) => Some(x),
                None => Some(e),
            }),
    {
        if self.worked.is_none() {
            self.worked = Some(e);
        }
    }
}

/// Espressif platforms (`espressif32`, `espressif8266`, ...), compared case-insensitively.
pub open spec fn is_esp_platform_spec(platform: Seq<char>) -> bool {
    starts_with(ascii_lower(platform), "espressif"@)
}

pub fn is_esp_platform(platform: &str) -> (r: bool)
    ensures
        r == is_esp_platform_spec(platform@),
{
    let l = ascii_lower_chars(str_chars(platform).as_slice());
    starts_with_str(l.as_slice(), "espressif")
}

/// The line `pio pkg exec` prints first (`Using tool-esptoolpy@... package`).
pub const USING_PACKAGE_PREFIX: &'static str = r"(?m)^Using [^\n]*package\n?";

pub const CHIP_TYPE: &'static str = r"Chip type:\s+(.+)";

pub const MAC: &'static str = r"MAC:\s+([0-9a-fA-F:]+)";

pub const FLASH_SIZE: &'static str = r"(?i)detected flash size:\s+(\S+)";

pub const FLASH_MANUFACTURER: &'static str = r"(?i)manufacturer:\s+(\S+)";

/// The output without its first line, when that line is the package-prefix line.
pub open spec fn strip_prefix_spec(output: Seq<char>, found: Option<(Seq<char>, Seq<char>)>) -> Seq<char> {
    match found {
        Some((before, m)) => if before.len() == 0 && m.len() <= output.len() {
            output.skip(m.len() as int)
        } else {
            output
        },
        None => output,
    }
}

pub fn strip_package_prefix(output: &str) -> (r: String)
    ensures
        r@ == strip_prefix_spec(output@, regex_find_result(USING_PACKAGE_PREFIX@, output@)),
{
    let v = str_chars(output);
    match regex_find(USING_PACKAGE_PREFIX, output) {
        Some((before, m)) => {
            let lb = before.as_str().unicode_len();
            let lm = m.as_str().unicode_len();
            if lb == 0 && lm <= v.len() {
                let rest = sub_chars(v.as_slice(), lm, v.len());
                string_from_chars(rest.as_slice())
            } else {
                str_to_string(output)
            }
        },
        None => str_to_string(output),
    }
}

/// What a `flash_id` run reported.
#[derive(Debug, Clone)]
pub struct ParsedFlashId {
    pub chip: Option<String>,
    pub mac: Option<String>,
    pub flash_size: Option<String>,
    pub flash_vendor: Option<String>,
}

/// Group 1 of a match, if there was a match (trimmed for the chip type).
pub open spec fn first_group(c: Option<Seq<Option<Seq<char>>>>) -> Option<Seq<char>> {
    match c {
        Some(g) => Some(group_text(g, 1)),
        None => None,
    }
}

/// The fields of a `flash_id` report, given the four patterns' matches on the text after
/// the package-prefix line.
pub open spec fn flash_id_ok(
    p: ParsedFlashId,
    chip: Option<Seq<Option<Seq<char>>>>,
    mac: Option<Seq<Option<Seq<char>>>>,
    size: Option<Seq<Option<Seq<char>>>>,
    vendor: Option<Seq<Option<Seq<char>>>>,
) -> bool {
    &&& opt_view(p.chip) == match first_group(chip) {
        Some(t) => Some(trim(t)),
        None => None,
    }
    &&& opt_view(p.mac) == first_group(mac)
    &&& opt_view(p.flash_size) == first_group(size)
    &&& opt_view(p.flash_vendor) == first_group(vendor)
}

fn first_group_exec(c: Option<Vec<Option<String>>>) -> (r: Option<String>)
    ensures
        opt_view(r) == first_group(captures_view(c)),
{
    match c {
        Some(g) => {
            if 1 < g.len() {
                match &g[1] {
                    Some(s) => Some(s.clone()),
                    None => Some(string_from_chars(&[])),
                }
            } else {
                Some(string_from_chars(&[]))
            }
        },
        None => None,
    }
}

/// The report's fields from the four patterns' matches (group 0 first).
pub fn flash_id_from_captures(
    chip: Option<Vec<Option<String>>>,
    mac: Option<Vec<Option<String>>>,
    size: Option<Vec<Option<String>>>,
    vendor: Option<Vec<Option<String>>>,
) -> (r: ParsedFlashId)
    ensures
        flash_id_ok(r, captures_view(chip), captures_view(mac), captures_view(size), captures_view(vendor)),
{
    let c = match first_group_exec(chip) {
        Some(t) => {
            let tc = trim_chars(str_chars(t.as_str()).as_slice());
            Some(string_from_chars(tc.as_slice()))
        },
        None => None,
    };
    ParsedFlashId {
        chip: c,
        mac: first_group_exec(mac),
        flash_size: first_group_exec(size),
        flash_vendor: first_group_exec(vendor),
    }
}

/// The chip, MAC, flash size and flash vendor of a `flash_id` run's output; a field that
/// does not appear is `None`.
pub fn parse_flash_id_output(raw: &str) -> (r: ParsedFlashId)
    ensures
        ({
            let text = strip_prefix_spec(raw@, regex_find_result(USING_PACKAGE_PREFIX@, raw@));
            flash_id_ok(
                r,
                regex_captures_result(CHIP_TYPE@, text),
                regex_captures_result(MAC@, text),
                regex_captures_result(FLASH_SIZE@, text),
                regex_captures_result(FLASH_MANUFACTURER@, text),
            )
        }),
{
    let text = strip_package_prefix(raw);
    let t = text.as_str();
    flash_id_from_captures(
        regex_captures(CHIP_TYPE, t),
        regex_captures(MAC, t),
        regex_captures(FLASH_SIZE, t),
        regex_captures(FLASH_MANUFACTURER, t),
    )
}

/// `pio pkg exec -p tool-esptoolpy -- <entrypoint> --port <port> flash_id`: the port is
/// always given, so esptool never probes every serial port.
pub fn flash_id_args(entrypoint: &str, port: &str) -> (r: Vec<String>)
    ensures
        strings_view(r@) == seq!["pkg"@, "exec"@, "-p"@, "tool-esptoolpy"@, "--"@, entrypoint@, "--port"@, port@, "flash_id"@],
{
    let a = ["pkg", "exec", "-p", "tool-esptoolpy", "--", entrypoint, "--port", port, "flash_id"];
    let r = strings_from(&a);
    assert(a@.map_values(|s: &str| s@) =~= seq!["pkg"@, "exec"@, "-p"@, "tool-esptoolpy"@, "--"@, entrypoint@, "--port"@, port@, "flash_id"@]);
    r
}

pub const NO_DEVICE_SELECTED: &'static str = "No device selected.";

pub const ESPTOOL_UNREACHABLE: &'static str = "Could not read chip info over esptool \u{2014} board may not be connected or in bootloader mode.";

fn copy_opt_str(o: Option<&str>) -> (r: Option<String>)
    ensures
        opt_view(r) == match o {
            Some(s) => Some(s@),
            None => None,
        },
{
    match o {
        Some(s) => Some(str_to_string(s)),
        None => None,
    }
}

/// The telemetry of a board without an adapter: connected exactly when a port is
/// selected, with a reason when none is.
pub fn run_generic_adapter(port: Option<&str>, board: Option<BoardBrief>) -> (r: Telemetry)
    ensures
        r.adapter@ == "generic"@,
        r.connected == port is Some,
        opt_view(r.port) == (match port {
            Some(p) => Some(p@),
            None => None,
        }),
        r.chip is None && r.flash_size is None && r.flash_vendor is None && r.mac is None,
        r.board == board,
        port is Some ==> r.unavailable_reason is None,
        port is None ==> opt_view(r.unavailable_reason) == Some(NO_DEVICE_SELECTED@),
{
    let connected = port.is_some();
    let reason = if connected { None } else { Some(str_to_string(NO_DEVICE_SELECTED)) };
    Telemetry {
        adapter: str_to_string("generic"),
        connected,
        port: copy_opt_str(port),
        chip: None,
        flash_size: None,
        flash_vendor: None,
        mac: None,
        board,
        unavailable_reason: reason,
    }
}

/// The Espressif telemetry after a `flash_id` run: connected with its fields when the run
/// succeeded, else unavailable with the reason.
pub fn esp_telemetry(port: &str, parsed: Option<ParsedFlashId>, board: Option<BoardBrief>) -> (r: Telemetry)
    ensures
        r.adapter@ == "esp"@,
        opt_view(r.port) == Some(port@),
        r.board == board,
        r.connected == parsed is Some,
        match parsed {
            Some(p) => r.chip == p.chip && r.mac == p.mac && r.flash_size == p.flash_size
                && r.flash_vendor == p.flash_vendor && r.unavailable_reason is None,
            None => r.chip is None && r.mac is None && r.flash_size is None && r.flash_vendor is None
                && opt_view(r.unavailable_reason) == Some(ESPTOOL_UNREACHABLE@),
        },
{
    match parsed {
        Some(p) => Telemetry {
            adapter: str_to_string("esp"),
            connected: true,
            port: Some(str_to_string(port)),
            chip: p.chip,
            flash_size: p.flash_size,
            flash_vendor: p.flash_vendor,
            mac: p.mac,
            board,
            unavailable_reason: None,
        },
        None => Telemetry {
            adapter: str_to_string("esp"),
            connected: false,
            port: Some(str_to_string(port)),
            chip: None,
            flash_size: None,
            flash_vendor: None,
            mac: None,
            board,
            unavailable_reason: Some(str_to_string(ESPTOOL_UNREACHABLE)),
        },
    }
}

/// Which adapter a telemetry request goes to.
#[derive(Debug, Clone, PartialEq, Eq)]
pub enum TelemetryPlan {
    /// Run `flash_id` on this port.
    Esp { port: String },
    /// An Espressif board without a port (or without PlatformIO): unavailable.
    EspUnavailable,
    /// Any other board, or no known board.
    Generic,
}

/// The adapter for a board: Espressif boards use `flash_id` when PlatformIO is available
/// and a port is selected; every other board uses the generic adapter.
pub fn telemetry_plan(board: &Option<BoardBrief>, has_pio: bool, port: Option<&str>) -> (r: TelemetryPlan)
    ensures
        ({
            let esp = match board {
                Some(b) => is_esp_platform_spec(b.platform@),
                None => false,
            };
            &&& !esp ==> r == TelemetryPlan::Generic
            &&& esp && has_pio && port is Some ==> (r matches TelemetryPlan::Esp { port: p } && p@ == port->0@)
            &&& esp && !(has_pio && port is Some) ==> r == TelemetryPlan::EspUnavailable
        }),
{
    let esp = match board {
        Some(b) => is_esp_platform(b.platform.as_str()),
        None => false,
    };
    if !esp {
        TelemetryPlan::Generic
    } else {
        match port {
            Some(p) => if has_pio {
                TelemetryPlan::Esp { port: str_to_string(p) }
            } else {
                TelemetryPlan::EspUnavailable
            },
            None => TelemetryPlan::EspUnavailable,
        }
    }
}

/// The telemetry of an Espressif board that cannot be asked: unavailable, no device
/// selected.
pub fn esp_unavailable(port: Option<&str>, board: Option<BoardBrief>) -> (r: Telemetry)
    ensures
        r.adapter@ == "esp"@,
        !r.connected,
        opt_view(r.port) == (match port {
            Some(p) => Some(p@),
            None => None,
        }),
        r.chip is None && r.flash_size is None && r.flash_vendor is None && r.mac is None,
        r.board == board,
        opt_view(r.unavailable_reason) == Some(NO_DEVICE_SELECTED@),
{
    Telemetry {
        adapter: str_to_string("esp"),
        connected: false,
        port: copy_opt_str(port),
        chip: None,
        flash_size: None,
        flash_vendor: None,
        mac: None,
        board,
        unavailable_reason: Some(str_to_string(NO_DEVICE_SELECTED)),
    }
}

} // verus!
