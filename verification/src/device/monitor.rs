//! The serial monitor's settings (read from the same `monitor_*` ini options the CLI
//! reads), the line-ending bytes it appends when sending, and its capped output buffer.
use crate::error::AppError;
use crate::project::env::{read_value_with_fallback, read_with_fallback_spec};
use crate::text::{
    ascii_lower, ascii_lower_chars, ascii_upper, ascii_upper_chars, chars_eq, parse_unsigned,
    parse_unsigned_chars, str_chars, str_to_string, trim, trim_chars,
};
use std::collections::VecDeque;
use vstd::prelude::*;

verus! {

/// Events sent to the monitor's front end.
#[derive(Debug, Clone)]
pub enum MonitorEvent {
    Opened { port: String, baud: u32 },
    Data { chunk: String, ts_ms: u64 },
    Preempted { by: String },
    Reattached { port: String },
    Closed { reason: String },
    Error { error: AppError },
}

#[derive(Debug, Clone, Copy, PartialEq, Eq)]
pub enum MonitorParity {
    NoParity,
    Even,
    Odd,
}

#[derive(Debug, Clone, PartialEq)]
pub struct SerialMonitorSettings {
    pub baud: u32,
    pub parity: MonitorParity,
    pub rts: Option<bool>,
    pub dtr: Option<bool>,
    pub eol: String,
    pub echo: bool,
    pub encoding: String,
    pub raw: bool,
}

impl Default for SerialMonitorSettings {
    /// 9600 baud, no parity, RTS/DTR untouched, CRLF line ending, no echo, UTF-8, not raw.
    fn default() -> (r: Self)
        ensures
            r.baud == 9600 && r.parity == MonitorParity::NoParity && r.rts is None && r.dtr is None
                && r.eol@ == "CRLF"@ && !r.echo && r.encoding@ == "UTF-8"@ && !r.raw,
    {
        SerialMonitorSettings {
            baud: 9600,
            parity: MonitorParity::NoParity,
            rts: None,
            dtr: None,
            eol: str_to_string("CRLF"),
            echo: false,
            encoding: str_to_string("UTF-8"),
            raw: false,
        }
    }
}

/// `1`/`true`/`yes` and `0`/`false`/`no`, after trimming and ignoring ASCII case.
pub open spec fn bool_flag_spec(v: Seq<char>) -> Option<bool> {
    let t = ascii_lower(trim(v));
    if t == "1"@ || t == "true"@ || t == "yes"@ {
        Some(true)
    } else if t == "0"@ || t == "false"@ || t == "no"@ {
        Some(false)
    } else {
        None
    }
}

fn eq_lit(a: &[char], lit: &str) -> (r: bool)
    ensures
        r == (a@ == lit@),
{
    let b = str_chars(lit);
    chars_eq(a, b.as_slice())
}

pub fn parse_bool_flag(v: &str) -> (r: Option<bool>)
    ensures
        r == bool_flag_spec(v@),
{
    let c = str_chars(v);
    let t = trim_chars(c.as_slice());
    let l = ascii_lower_chars(t.as_slice());
    if eq_lit(&l, "1") || eq_lit(&l, "true") || eq_lit(&l, "yes") {
        Some(true)
    } else if eq_lit(&l, "0") || eq_lit(&l, "false") || eq_lit(&l, "no") {
        Some(false)
    } else {
        None
    }
}

pub open spec fn opt_flag(o: Option<Seq<char>>) -> Option<bool> {
    match o {
        Some(v) => bool_flag_spec(v),
        None => None,
    }
}

/// The parity letter: `E`/`e` even, `O`/`o` odd, anything else (including `S` and `M`,
/// which the serial library cannot do) none.
pub open spec fn parity_spec(o: Option<Seq<char>>) -> MonitorParity {
    match o {
        Some(v) => if v == "E"@ || v == "e"@ {
            MonitorParity::Even
        } else if v == "O"@ || v == "o"@ {
            MonitorParity::Odd
        } else {
            MonitorParity::NoParity
        },
        None => MonitorParity::NoParity,
    }
}

/// Monitor settings from the ini text for `env`: each `monitor_*` option read with
/// `[env]` fallback, and the default for anything absent or unreadable.
pub open spec fn settings_match(s: SerialMonitorSettings, text: Seq<char>, env: Seq<char>) -> bool {
    let rd = |k: Seq<char>| read_with_fallback_spec(text, env, k);
    &&& s.baud == match rd("monitor_speed"@) {
        Some(v) => match parse_unsigned(v, u32::MAX as nat) {
            Some(n) => n,
            None => 9600,
        },
        None => 9600,
    }
    &&& s.parity == parity_spec(rd("monitor_parity"@))
    &&& s.rts == opt_flag(rd("monitor_rts"@))
    &&& s.dtr == opt_flag(rd("monitor_dtr"@))
    &&& s.eol@ == match rd("monitor_eol"@) {
        Some(v) => v,
        None => "CRLF"@,
    }
    &&& s.echo == match opt_flag(rd("monitor_echo"@)) {
        Some(b) => b,
        None => false,
    }
    &&& s.encoding@ == match rd("monitor_encoding"@) {
        Some(v) => v,
        None => "UTF-8"@,
    }
    &&& s.raw == match opt_flag(rd("monitor_raw"@)) {
        Some(b) => b,
        None => false,
    }
}

/// The parity setting is one letter, in either case: a value gives odd parity exactly when
/// it is the single letter `O` or `o`, even parity exactly when it is `E` or `e`, and no
/// parity otherwise or when the option is absent.
pub proof fn law_parity_letters(v: Seq<char>)
    ensures
        (parity_spec(Some(v)) == MonitorParity::Odd) == (v.len() == 1 && (v[0] == 'O' || v[0] == 'o')),
        (parity_spec(Some(v)) == MonitorParity::Even) == (v.len() == 1 && (v[0] == 'E' || v[0] == 'e')),
        (parity_spec(Some(v)) == MonitorParity::NoParity) == !(v.len() == 1 && (v[0] == 'O' || v[0] == 'o'
            || v[0] == 'E' || v[0] == 'e')),
        parity_spec(None) == MonitorParity::NoParity,
{
    reveal_strlit("E");
    reveal_strlit("e");
    reveal_strlit("O");
    reveal_strlit("o");
    if v.len() == 1 {
        if v[0] == 'O' {
            assert(v =~= "O"@);
        } else if v[0] == 'o' {
            assert(v =~= "o"@);
        } else if v[0] == 'E' {
            assert(v =~= "E"@);
        } else if v[0] == 'e' {
            assert(v =~= "e"@);
        }
    }
}

/// The monitor's parity follows the env's `monitor_parity` (read with `[env]` fallback):
/// odd for `O`/`o`, even for `E`/`e`, none for anything else or when it is absent.
pub proof fn law_settings_parity(s: SerialMonitorSettings, text: Seq<char>, env: Seq<char>)
    requires
        settings_match(s, text, env),
    ensures
        (s.parity == MonitorParity::Odd) == (read_with_fallback_spec(text, env, "monitor_parity"@) matches Some(v)
            && v.len() == 1 && (v[0] == 'O' || v[0] == 'o')),
        (s.parity == MonitorParity::Even) == (read_with_fallback_spec(text, env, "monitor_parity"@) matches Some(v)
            && v.len() == 1 && (v[0] == 'E' || v[0] == 'e')),
{
    match read_with_fallback_spec(text, env, "monitor_parity"@) {
        Some(v) => law_parity_letters(v),
        None => {},
    }
}

fn read_flag(ini_text: &str, env_name: &str, key: &str) -> (r: Option<bool>)
    ensures
        r == opt_flag(read_with_fallback_spec(ini_text@, env_name@, key@)),
{
    match read_value_with_fallback(ini_text, env_name, key) {
        Some(v) => parse_bool_flag(v.as_str()),
        None => None,
    }
}

/// Builds the settings from `platformio.ini`'s text for the given env.
pub fn settings_from_ini(ini_text: &str, env_name: &str) -> (r: SerialMonitorSettings)
    ensures
        settings_match(r, ini_text@, env_name@),
{
    let defaults = SerialMonitorSettings::default();
    let baud = match read_value_with_fallback(ini_text, env_name, "monitor_speed") {
        Some(v) => {
            let c = str_chars(v.as_str());
            match parse_unsigned_chars(c.as_slice(), u32::MAX as u64) {
                Some(n) => n as u32,
                None => defaults.baud,
            }
        },
        None => defaults.baud,
    };
    let parity = match read_value_with_fallback(ini_text, env_name, "monitor_parity") {
        Some(v) => {
            let c = str_chars(v.as_str());
            if eq_lit(&c, "E") || eq_lit(&c, "e") {
                MonitorParity::Even
            } else if eq_lit(&c, "O") || eq_lit(&c, "o") {
                MonitorParity::Odd
            } else {
                MonitorParity::NoParity
            }
        },
        None => MonitorParity::NoParity,
    };
    let rts = read_flag(ini_text, env_name, "monitor_rts");
    let dtr = read_flag(ini_text, env_name, "monitor_dtr");
    let eol = match read_value_with_fallback(ini_text, env_name, "monitor_eol") {
        Some(v) => v,
        None => defaults.eol,
    };
    let echo = match read_flag(ini_text, env_name, "monitor_echo") {
        Some(b) => b,
        None => defaults.echo,
    };
    let encoding = match read_value_with_fallback(ini_text, env_name, "monitor_encoding") {
        Some(v) => v,
        None => defaults.encoding,
    };
    let raw = match read_flag(ini_text, env_name, "monitor_raw") {
        Some(b) => b,
        None => defaults.raw,
    };
    SerialMonitorSettings { baud, parity, rts, dtr, eol, echo, encoding, raw }
}

/// The bytes appended to sent text for an EOL setting: `LF`, `CR`, else `CRLF`, ignoring
/// ASCII case.
pub open spec fn eol_bytes_spec(eol: Seq<char>) -> Seq<u8> {
    let u = ascii_upper(eol);
    if u == "LF"@ {
        seq![10u8]
    } else if u == "CR"@ {
        seq![13u8]
    } else {
        seq![13u8, 10u8]
    }
}

pub fn eol_bytes(eol: &str) -> (r: &'static [u8])
    ensures
        r@ == eol_bytes_spec(eol@),
{
    let c = str_chars(eol);
    let u = ascii_upper_chars(c.as_slice());
    if eq_lit(&u, "LF") {
        let r: &'static [u8] = &[10u8];
        assert(r@ =~= seq![10u8]);
        r
    } else if eq_lit(&u, "CR") {
        let r: &'static [u8] = &[13u8];
        assert(r@ =~= seq![13u8]);
        r
    } else {
        let r: &'static [u8] = &[13u8, 10u8];
        assert(r@ =~= seq![13u8, 10u8]);
        r
    }
}

// ---------------------------------------------------------------------------------------
// Ring buffer
// ---------------------------------------------------------------------------------------

pub const DEFAULT_MAX_LINES: usize = 10_000;

pub const DEFAULT_MAX_BYTES: usize = 5_242_880;

/// Number of line feeds in `s`.
pub open spec fn count_nl(s: Seq<u8>) -> nat
    decreases s.len(),
{
    if s.len() == 0 {
        0
    } else {
        count_nl(s.drop_last()) + if s.last() == 10u8 {
            1nat
        } else {
            0nat
        }
    }
}

/// Drops bytes from the front until both caps hold.
pub open spec fn evict(s: Seq<u8>, max_lines: nat, max_bytes: nat) -> Seq<u8>
    decreases s.len(),
{
    if s.len() > 0 && (s.len() > max_bytes || count_nl(s) > max_lines) {
        evict(s.drop_first(), max_lines, max_bytes)
    } else {
        s
    }
}

pub proof fn lemma_count_nl_drop_first(s: Seq<u8>)
    requires
        s.len() > 0,
    ensures
        count_nl(s) == count_nl(s.drop_first()) + if s[0] == 10u8 {
            1nat
        } else {
            0nat
        },
    decreases s.len(),
{
    if s.len() > 1 {
        lemma_count_nl_drop_first(s.drop_last());
        assert(s.drop_last()[0] == s[0]);
        assert(s.drop_last().drop_first() == s.drop_first().drop_last());
        assert(s.drop_first().last() == s.last());
    } else {
        assert(s.drop_first() == Seq::<u8>::empty());
        assert(s.drop_last() == Seq::<u8>::empty());
        assert(count_nl(Seq::<u8>::empty()) == 0);
        assert(s.last() == s[0]);
    }
}

pub proof fn lemma_count_nl_push(s: Seq<u8>, b: u8)
    ensures
        count_nl(s.push(b)) == count_nl(s) + if b == 10u8 {
            1nat
        } else {
            0nat
        },
{
    assert(s.push(b).drop_last() == s);
}

pub proof fn lemma_count_nl_bound(s: Seq<u8>)
    ensures
        count_nl(s) <= s.len(),
    decreases s.len(),
{
    if s.len() > 0 {
        lemma_count_nl_bound(s.drop_last());
    }
}

/// Evicts the oldest bytes of `buf` until at most `max_bytes` bytes and `max_lines` line
/// feeds remain, keeping `line_count` the number of line feeds held.
fn enforce_caps(buf: &mut VecDeque<u8>, line_count: &mut usize, max_lines: usize, max_bytes: usize)
    requires
        *old(line_count) as nat == count_nl(old(buf)@),
    ensures
        *final(line_count) as nat == count_nl(final(buf)@),
        final(buf)@ == evict(old(buf)@, max_lines as nat, max_bytes as nat),
{
    let ghost orig = buf@;
    while buf.len() > max_bytes || *line_count > max_lines
        invariant
            *line_count as nat == count_nl(buf@),
            evict(buf@, max_lines as nat, max_bytes as nat) == evict(orig, max_lines as nat, max_bytes as nat),
        decreases buf@.len(),
    {
        proof {
            lemma_count_nl_bound(buf@);
        }
        let ghost before = buf@;
        match buf.pop_front() {
            Some(b) => {
                proof {
                    lemma_count_nl_drop_first(before);
                    assert(buf@ == before.drop_first());
                }
                if b == 10u8 {
                    *line_count = *line_count - 1;
                }
            },
            None => {
                proof {
                    assert(before.len() > 0);
                    assert(false);
                }
            },
        }
    }
    proof {
        let s = buf@;
        assert(evict(s, max_lines as nat, max_bytes as nat) == s);
    }
}

/// A byte buffer capped by both line count and total bytes; the oldest bytes go first.
pub struct RingBuffer {
    max_lines: usize,
    max_bytes: usize,
    buf: VecDeque<u8>,
    line_count: usize,
}

impl RingBuffer {
    pub closed spec fn contents(&self) -> Seq<u8> {
        self.buf@
    }

    pub closed spec fn max_lines(&self) -> nat {
        self.max_lines as nat
    }

    pub closed spec fn max_bytes(&self) -> nat {
        self.max_bytes as nat
    }

    /// The line count kept alongside the bytes is the number of line feeds they hold.
    #[verifier::type_invariant]
    spec fn counts_lines(&self) -> bool {
        self.line_count as nat == count_nl(self.buf@)
    }

    pub fn new(max_lines: usize, max_bytes: usize) -> (r: Self)
        ensures
            r.contents() == Seq::<u8>::empty(),
            r.max_lines() == max_lines,
            r.max_bytes() == max_bytes,
    {
        RingBuffer { max_lines, max_bytes, buf: VecDeque::new(), line_count: 0 }
    }

    /// Appends `data`, then evicts the oldest bytes until at most `max_bytes` bytes and
    /// `max_lines` line feeds remain.
    pub fn push(&mut self, data: &[u8])
        ensures
            final(self).max_lines() == old(self).max_lines(),
            final(self).max_bytes() == old(self).max_bytes(),
            final(self).contents() == evict(old(self).contents() + data@, old(self).max_lines(), old(self).max_bytes()),
    {
        let max_lines = self.max_lines;
        let max_bytes = self.max_bytes;
        let mut taken = RingBuffer::new(max_lines, max_bytes);
        std::mem::swap(&mut taken, self);
        proof {
            use_type_invariant(&taken);
        }
        let RingBuffer { mut buf, mut line_count, .. } = taken;
        let ghost start = buf@;
        let mut i: usize = 0;
        while i < data.len()
            invariant
                i <= data.len(),
                buf@ == start + data@.take(i as int),
                line_count as nat == count_nl(buf@),
            decreases data.len() - i,
        {
            let b = data[i];
            proof {
                lemma_count_nl_push(buf@, b);
                lemma_count_nl_bound(buf@);
                assert(start + data@.take(i + 1) == (start + data@.take(i as int)).push(b));
            }
            buf.push_back(b);
            let n = buf.len();
            assert(line_count < n);
            if b == 10u8 {
                line_count += 1;
            }
            i += 1;
        }
        assert(data@.take(data.len() as int) == data@);
        enforce_caps(&mut buf, &mut line_count, max_lines, max_bytes);
        *self = RingBuffer { max_lines, max_bytes, buf, line_count };
    }

    /// The buffered bytes, oldest first.
    pub fn as_bytes(&self) -> (r: Vec<u8>)
        ensures
            r@ == self.contents(),
    {
        let mut out: Vec<u8> = Vec::new();
        let mut i: usize = 0;
        while i < self.buf.len()
            invariant
                i <= self.buf@.len(),
                out@ == self.buf@.take(i as int),
            decreases self.buf@.len() - i,
        {
            out.push(self.buf[i]);
            assert(self.buf@.take(i + 1) == self.buf@.take(i as int).push(self.buf@[i as int]));
            i += 1;
        }
        assert(self.buf@.take(self.buf@.len() as int) == self.buf@);
        out
    }

    pub fn clear(&mut self)
        ensures
            final(self).contents() == Seq::<u8>::empty(),
            final(self).max_lines() == old(self).max_lines(),
            final(self).max_bytes() == old(self).max_bytes(),
    {
        *self = RingBuffer { max_lines: self.max_lines, max_bytes: self.max_bytes, buf: VecDeque::new(), line_count: 0 };
    }

    pub fn len_bytes(&self) -> (r: usize)
        ensures
            r == self.contents().len(),
    {
        self.buf.len()
    }
}

impl Default for RingBuffer {
    fn default() -> (r: Self)
        ensures
            r.contents() == Seq::<u8>::empty(),
            r.max_lines() == DEFAULT_MAX_LINES,
            r.max_bytes() == DEFAULT_MAX_BYTES,
    {
        Self::new(DEFAULT_MAX_LINES, DEFAULT_MAX_BYTES)
    }
}

/// After any push, the buffer respects both caps, and what it holds is the newest part of
/// everything pushed (a suffix of the old contents followed by the new data).
pub proof fn law_push_respects_caps(s: Seq<u8>, max_lines: nat, max_bytes: nat)
    ensures
        evict(s, max_lines, max_bytes).len() <= max_bytes,
        count_nl(evict(s, max_lines, max_bytes)) <= max_lines,
        exists|k: int| 0 <= k <= s.len() && evict(s, max_lines, max_bytes) == s.skip(k),
    decreases s.len(),
{
    if s.len() > 0 && (s.len() > max_bytes || count_nl(s) > max_lines) {
        law_push_respects_caps(s.drop_first(), max_lines, max_bytes);
        let k = choose|k: int| 0 <= k <= s.drop_first().len() && evict(s.drop_first(), max_lines, max_bytes) == s.drop_first().skip(k);
        assert(s.drop_first().skip(k) == s.skip(k + 1));
    } else {
        assert(s.skip(0) == s);
        if s.len() == 0 {
            assert(count_nl(s) == 0);
        }
    }
}

/// `s` fits within both caps.
pub open spec fn fits_caps(s: Seq<u8>, max_lines: nat, max_bytes: nat) -> bool {
    s.len() <= max_bytes && count_nl(s) <= max_lines
}

/// What a push keeps is the longest suffix of everything pushed that fits both caps: every
/// longer suffix breaks one of them.
pub proof fn law_push_keeps_the_longest_suffix(s: Seq<u8>, max_lines: nat, max_bytes: nat)
    ensures
        exists|j: int|
            0 <= j <= s.len() && evict(s, max_lines, max_bytes) == s.skip(j) && fits_caps(
                s.skip(j),
                max_lines,
                max_bytes,
            ) && forall|k: int| 0 <= k < j ==> !fits_caps(#[trigger] s.skip(k), max_lines, max_bytes),
    decreases s.len(),
{
    if s.len() > 0 && (s.len() > max_bytes || count_nl(s) > max_lines) {
        let t = s.drop_first();
        law_push_keeps_the_longest_suffix(t, max_lines, max_bytes);
        let j = choose|j: int|
            0 <= j <= t.len() && evict(t, max_lines, max_bytes) == t.skip(j) && fits_caps(t.skip(j), max_lines, max_bytes)
                && forall|k: int| 0 <= k < j ==> !fits_caps(#[trigger] t.skip(k), max_lines, max_bytes);
        assert(t.skip(j) == s.skip(j + 1));
        assert forall|k: int| 0 <= k < j + 1 implies !fits_caps(#[trigger] s.skip(k), max_lines, max_bytes) by {
            if k == 0 {
                assert(s.skip(0) == s);
            } else {
                assert(s.skip(k) == t.skip(k - 1));
            }
        }
    } else {
        assert(s.skip(0) == s);
        if s.len() == 0 {
            assert(count_nl(s) == 0);
        }
    }
}

/// Commands to the serial I/O engine.
pub enum MonitorCommand {
    Send(Vec<u8>),
    Stop,
}

/// What the serial I/O engine reports back.
pub enum EngineEvent {
    Data(Vec<u8>),
    Error(String),
    Closed,
}

} // verus!
