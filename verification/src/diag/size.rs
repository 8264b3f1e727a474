//! The firmware size report of a build: the `RAM:` line and then the `Flash:` line, e.g.
//! `RAM:   [=         ]   6.7% (used 22116 bytes from 327680 bytes)`.
use crate::diag::parser::{group, group_text};
use crate::matching::{captures_view, regex_captures, regex_captures_result};
use crate::proc::events::SizeUsage;
use crate::text::{parse_unsigned, parse_unsigned_chars, str_chars};
use vstd::prelude::*;

verus! {

pub const SIZE_LINE: &'static str = r"^(?P<kind>RAM|Flash):\s+\[.*\]\s+[\d.]+%\s+\(used\s+(?P<used>\d+)\s+bytes\s+from\s+(?P<total>\d+)\s+bytes\)";

/// `str::parse::<u64>`.
pub open spec fn parse_u64(s: Seq<char>) -> Option<u64> {
    match parse_unsigned(s, u64::MAX as nat) {
        Some(n) => Some(n as u64),
        None => None,
    }
}

/// A size line's kind (`true` for RAM) and its used and total bytes; `None` when the line
/// is no size line or a number does not parse.
pub open spec fn size_line_spec(c: Option<Seq<Option<Seq<char>>>>) -> Option<(bool, u64, u64)> {
    match c {
        Some(g) => match (parse_u64(group_text(g, 2)), parse_u64(group_text(g, 3))) {
            (Some(used), Some(total)) => Some((group_text(g, 1) == "RAM"@, used, total)),
            _ => None,
        },
        None => None,
    }
}

/// One step: a RAM line is remembered; a Flash line is remembered too and, once a RAM line
/// has been seen, completes the report (without deltas). The report comes once: after it,
/// every line leaves the state as it is and reports nothing.
pub open spec fn size_step(
    ram: Option<(u64, u64)>,
    flash: Option<(u64, u64)>,
    reported: bool,
    parsed: Option<(bool, u64, u64)>,
) -> (Option<(u64, u64)>, Option<(u64, u64)>, bool, Option<SizeUsage>) {
    if reported {
        (ram, flash, true, None)
    } else {
        match parsed {
            None => (ram, flash, false, None),
            Some((true, used, total)) => (Some((used, total)), flash, false, None),
            Some((false, used, total)) => match ram {
                Some((ru, rt)) => (ram, Some((used, total)), true, Some(SizeUsage {
                    ram_used: ru,
                    ram_total: rt,
                    flash_used: used,
                    flash_total: total,
                    ram_delta: None,
                    flash_delta: None,
                })),
                None => (ram, Some((used, total)), false, None),
            },
        }
    }
}

/// Collects the RAM line until the Flash line arrives.
pub struct SizeParser {
    ram: Option<(u64, u64)>,
    flash: Option<(u64, u64)>,
    reported: bool,
}

fn group_str(c: &Vec<Option<String>>, i: usize) -> (r: Vec<char>)
    ensures
        r@ == group_text(c@.map_values(|g: Option<String>| crate::matching::opt_view(g)), i as int),
{
    if i < c.len() {
        match &c[i] {
            Some(s) => str_chars(s.as_str()),
            None => Vec::new(),
        }
    } else {
        Vec::new()
    }
}

/// The kind and numbers of a size line, from its match.
pub fn parse_size_captures(c: Option<Vec<Option<String>>>) -> (r: Option<(bool, u64, u64)>)
    ensures
        r == size_line_spec(captures_view(c)),
{
    match c {
        Some(g) => {
            let kind = group_str(&g, 1);
            let used = group_str(&g, 2);
            let total = group_str(&g, 3);
            let u = parse_unsigned_chars(used.as_slice(), u64::MAX);
            let t = parse_unsigned_chars(total.as_slice(), u64::MAX);
            match (u, t) {
                (Some(used), Some(total)) => {
                    let ram = crate::text::str_eq_chars("RAM", kind.as_slice());
                    proof {
                        reveal_strlit("RAM");
                    }
                    Some((ram, used, total))
                },
                _ => None,
            }
        },
        None => None,
    }
}

impl SizeParser {
    pub closed spec fn ram(&self) -> Option<(u64, u64)> {
        self.ram
    }

    pub closed spec fn flash(&self) -> Option<(u64, u64)> {
        self.flash
    }

    /// Whether the report has been given.
    pub closed spec fn reported(&self) -> bool {
        self.reported
    }

    pub fn new() -> (r: SizeParser)
        ensures
            r.ram() is None,
            r.flash() is None,
            !r.reported(),
    {
        SizeParser { ram: None, flash: None, reported: false }
    }

    /// The report, when `parsed` (a size line's kind and numbers) completes one.
    pub fn feed_parsed(&mut self, parsed: Option<(bool, u64, u64)>) -> (r: Option<SizeUsage>)
        ensures
            (final(self).ram(), final(self).flash(), final(self).reported(), r) == size_step(
                old(self).ram(),
                old(self).flash(),
                old(self).reported(),
                parsed,
            ),
    {
        if self.reported {
            return None;
        }
        match parsed {
            None => None,
            Some((true, used, total)) => {
                self.ram = Some((used, total));
                None
            },
            Some((false, used, total)) => {
                self.flash = Some((used, total));
                match self.ram {
                    Some((ram_used, ram_total)) => {
                        self.reported = true;
                        Some(SizeUsage {
                            ram_used,
                            ram_total,
                            flash_used: used,
                            flash_total: total,
                            ram_delta: None,
                            flash_delta: None,
                        })
                    },
                    None => None,
                }
            },
        }
    }

    /// The report, on the first Flash line that follows a RAM line; `None` on every other
/// line, a repeated Flash line included.
    pub fn feed_line(&mut self, line: &str) -> (r: Option<SizeUsage>)
        ensures
            (final(self).ram(), final(self).flash(), final(self).reported(), r) == size_step(
                old(self).ram(),
                old(self).flash(),
                old(self).reported(),
                size_line_spec(regex_captures_result(SIZE_LINE@, line@)),
            ),
    {
        let c = regex_captures(SIZE_LINE, line);
        let parsed = parse_size_captures(c);
        self.feed_parsed(parsed)
    }
}

} // verus!
