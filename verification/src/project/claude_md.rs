//! The generated hardware-context block of the project's assistant notes file. Only the
//! text between the two markers is rewritten; everything outside them is the user's.
use crate::pio::boards::BoardBrief;
use crate::text::{append_chars, append_str, ends_with, ends_with_chars, str_chars, string_from_chars, strings_view, trail_ws, trail_ws_exec, lemma_trail_ws_bound, trim_end, sub_chars};
use crate::textops::{decimal, decimal_chars, find_from, find_from_exec, find_sub, join_strings, join_with};
use vstd::prelude::*;

verus! {

pub const BEGIN_MARKER: &'static str = "<!-- vibe-hardware:begin (generated \u{2014} edits inside this block are overwritten) -->";

pub const END_MARKER: &'static str = "<!-- vibe-hardware:end -->";

pub open spec fn mhz(fcpu: u64) -> Seq<char> {
    decimal((fcpu / 1_000_000) as nat) + " MHz"@
}

pub open spec fn flash_size(rom: u64) -> Seq<char> {
    if rom >= 1_048_576 {
        decimal((rom / 1_048_576) as nat) + " MB"@
    } else {
        decimal((rom / 1024) as nat) + " KB"@
    }
}

pub open spec fn ram_size(ram: u64) -> Seq<char> {
    decimal((ram / 1024) as nat) + " KB"@
}

/// `Target board: **id** — name (vendor)` and a line feed.
pub open spec fn board_line(b: BoardBrief) -> Seq<char> {
    "Target board: **"@ + b.id@ + "** \u{2014} "@ + b.name@ + " ("@ + b.vendor@ + ")\n"@
}

/// `MCU: mcu @ N MHz · Flash size · RAM size` and a line feed.
pub open spec fn mcu_line(b: BoardBrief) -> Seq<char> {
    "MCU: "@ + b.mcu@ + " @ "@ + mhz(b.fcpu) + " \u{b7} Flash "@ + flash_size(b.rom) + " \u{b7} RAM "@
        + ram_size(b.ram) + "\n"@
}

/// The board's frameworks, comma separated, and the active one.
pub open spec fn frameworks_line(b: BoardBrief, framework: Seq<char>) -> Seq<char> {
    "Frameworks available: "@ + join_with(strings_view(b.frameworks@), ", "@) + " \u{b7} Active: "@ + framework
        + "\n"@
}

/// The board's connectivity, comma separated; no line at all when it lists none.
pub open spec fn connectivity_line(b: BoardBrief) -> Seq<char> {
    if b.connectivity@.len() > 0 {
        "Connectivity: "@ + join_with(strings_view(b.connectivity@), ", "@) + "\n"@
    } else {
        Seq::empty()
    }
}

/// The block's body: the board summary, the build system note with the current ini
/// (trailing whitespace removed) in a fenced block, and the house rules.
pub open spec fn generated_body_spec(b: BoardBrief, framework: Seq<char>, ini: Seq<char>) -> Seq<char> {
    "# Hardware context\n\n"@ + board_line(b) + mcu_line(b) + frameworks_line(b, framework) + connectivity_line(b)
        + "\n"@ + BUILD_SYSTEM@ + trim_end(ini) + HOUSE_RULES@
}

pub const BUILD_SYSTEM: &'static str = "## Build system\nPlatformIO. Do not invent a Makefile or CMakeLists \u{2014} `platformio.ini` is the build\nconfiguration.\n\nCurrent `platformio.ini`:\n\n```ini\n";

pub const HOUSE_RULES: &'static str = "\n```\n\n## House rules\n- Application code goes in `src/`. Shared headers in `include/`. Private libraries in\n  `lib/<Name>/`. Tests in `test/`.\n- Add every external library to `lib_deps` in `platformio.ini`. Never vendor sources\n  into `src/`.\n- This target is memory-constrained: avoid dynamic allocation inside `loop()`, prefer\n  fixed-size buffers, and keep ISRs short and `IRAM_ATTR` where the platform requires it.\n- Do not write to `.pio/` or `.vibe/`.\n- Do not change `board`, `platform`, `upload_protocol`, or flash layout options unless\n  explicitly asked \u{2014} those can make the device unflashable.\n- After changing code, do not run the build yourself; the user triggers Build and Upload\n  from the app.\n";

fn append_decimal(v: &mut Vec<char>, n: u64)
    ensures
        final(v)@ == old(v)@ + decimal(n as nat),
{
    let d = decimal_chars(n);
    append_chars(v, d.as_slice());
}

fn push_board_line(s: &mut Vec<char>, b: &BoardBrief)
    ensures
        final(s)@ == old(s)@ + board_line(*b),
{
    append_str(s, "Target board: **");
    append_str(s, b.id.as_str());
    append_str(s, "** \u{2014} ");
    append_str(s, b.name.as_str());
    append_str(s, " (");
    append_str(s, b.vendor.as_str());
    append_str(s, ")\n");
    assert(s@ =~= old(s)@ + board_line(*b));
}

fn push_mcu_line(s: &mut Vec<char>, b: &BoardBrief)
    ensures
        final(s)@ == old(s)@ + mcu_line(*b),
{
    append_str(s, "MCU: ");
    append_str(s, b.mcu.as_str());
    append_str(s, " @ ");
    let ghost s0 = s@;
    append_decimal(s, b.fcpu / 1_000_000);
    append_str(s, " MHz");
    assert(s@ =~= s0 + mhz(b.fcpu));
    append_str(s, " \u{b7} Flash ");
    let ghost s1 = s@;
    if b.rom >= 1_048_576 {
        append_decimal(s, b.rom / 1_048_576);
        append_str(s, " MB");
    } else {
        append_decimal(s, b.rom / 1024);
        append_str(s, " KB");
    }
    assert(s@ =~= s1 + flash_size(b.rom));
    append_str(s, " \u{b7} RAM ");
    let ghost s2 = s@;
    append_decimal(s, b.ram / 1024);
    append_str(s, " KB");
    assert(s@ =~= s2 + ram_size(b.ram));
    append_str(s, "\n");
    assert(s@ =~= old(s)@ + mcu_line(*b));
}

fn push_frameworks_line(s: &mut Vec<char>, b: &BoardBrief, framework: &str)
    ensures
        final(s)@ == old(s)@ + frameworks_line(*b, framework@),
{
    append_str(s, "Frameworks available: ");
    let fw = join_strings(&b.frameworks, ", ");
    append_chars(s, fw.as_slice());
    append_str(s, " \u{b7} Active: ");
    append_str(s, framework);
    append_str(s, "\n");
    assert(s@ =~= old(s)@ + frameworks_line(*b, framework@));
}

fn push_connectivity_line(s: &mut Vec<char>, b: &BoardBrief)
    ensures
        final(s)@ == old(s)@ + connectivity_line(*b),
{
    if b.connectivity.len() > 0 {
        append_str(s, "Connectivity: ");
        let c = join_strings(&b.connectivity, ", ");
        append_chars(s, c.as_slice());
        append_str(s, "\n");
        assert(s@ =~= old(s)@ + connectivity_line(*b));
    } else {
        assert(s@ =~= old(s)@ + connectivity_line(*b));
    }
}

fn push_trimmed(s: &mut Vec<char>, text: &str)
    ensures
        final(s)@ == old(s)@ + trim_end(text@),
{
    let t = str_chars(text);
    let k = trail_ws_exec(t.as_slice());
    proof {
        lemma_trail_ws_bound(t@);
    }
    let trimmed = sub_chars(t.as_slice(), 0, t.len() - k);
    append_chars(s, trimmed.as_slice());
}

fn generated_body(board: &BoardBrief, framework: &str, platformio_ini: &str) -> (r: Vec<char>)
    ensures
        r@ == generated_body_spec(*board, framework@, platformio_ini@),
{
    let mut s: Vec<char> = Vec::new();
    append_str(&mut s, "# Hardware context\n\n");
    push_board_line(&mut s, board);
    push_mcu_line(&mut s, board);
    push_frameworks_line(&mut s, board, framework);
    push_connectivity_line(&mut s, board);
    append_str(&mut s, "\n");
    append_str(&mut s, BUILD_SYSTEM);
    push_trimmed(&mut s, platformio_ini);
    append_str(&mut s, HOUSE_RULES);
    assert(s@ =~= generated_body_spec(*board, framework@, platformio_ini@));
    s
}

/// The markers around the body, each on its own line.
pub open spec fn wrapped_block_spec(b: BoardBrief, framework: Seq<char>, ini: Seq<char>) -> Seq<char> {
    BEGIN_MARKER@ + "\n"@ + generated_body_spec(b, framework, ini) + END_MARKER@ + "\n"@
}

/// Replaces the text from the first begin marker through the end marker (and one line
/// feed right after it) with the new block. Without both markers in order, the block is
/// appended after a blank-line separator.
pub open spec fn splice_spec(existing: Seq<char>, block: Seq<char>) -> Seq<char> {
    let begin = find_sub(existing, BEGIN_MARKER@);
    let end = find_sub(existing, END_MARKER@);
    if begin >= 0 && end >= 0 && end >= begin {
        let after = existing.skip(end + END_MARKER@.len());
        let after2 = if after.len() > 0 && after[0] == '\n' {
            after.drop_first()
        } else {
            after
        };
        existing.take(begin) + block + after2
    } else {
        let sep = if ends_with(existing, "\n\n"@) || existing.len() == 0 {
            Seq::<char>::empty()
        } else if ends_with(existing, "\n"@) {
            "\n"@
        } else {
            "\n\n"@
        };
        existing + sep + block
    }
}

pub open spec fn regenerate_spec(existing: Option<Seq<char>>, b: BoardBrief, framework: Seq<char>, ini: Seq<char>) -> Seq<char> {
    match existing {
        None => wrapped_block_spec(b, framework, ini),
        Some(text) => splice_spec(text, wrapped_block_spec(b, framework, ini)),
    }
}

fn splice(existing: &str, new_block: &[char]) -> (r: Vec<char>)
    ensures
        r@ == splice_spec(existing@, new_block@),
{
    let e = str_chars(existing);
    let bm = str_chars(BEGIN_MARKER);
    let em = str_chars(END_MARKER);
    let begin = find_from_exec(e.as_slice(), bm.as_slice(), 0);
    let end = find_from_exec(e.as_slice(), em.as_slice(), 0);
    proof {
        crate::textops::lemma_find_from_bounds(e@, bm@, 0);
        crate::textops::lemma_find_from_bounds(e@, em@, 0);
    }
    match (begin, end) {
        (Some(b), Some(en)) if en >= b => {
            assert(en + em.len() <= e.len());
            let end_of_marker = en + em.len();
            let mut out = sub_chars(e.as_slice(), 0, b);
            append_chars(&mut out, new_block);
            let start_after = if end_of_marker < e.len() && e[end_of_marker] == '\n' {
                end_of_marker + 1
            } else {
                end_of_marker
            };
            let after = sub_chars(e.as_slice(), start_after, e.len());
            proof {
                let a = e@.skip(end_of_marker as int);
                if a.len() > 0 && a[0] == '\n' {
                    assert(after@ =~= a.drop_first());
                } else {
                    assert(after@ =~= a);
                }
            }
            append_chars(&mut out, after.as_slice());
            out
        },
        _ => {
            let mut out = sub_chars(e.as_slice(), 0, e.len());
            assert(out@ == e@);
            let nn = ['\n', '\n'];
            let n1 = ['\n'];
            proof {
                reveal_strlit("\n\n");
                reveal_strlit("\n");
                assert(nn@ =~= "\n\n"@);
                assert(n1@ =~= "\n"@);
            }
            if ends_with_chars(e.as_slice(), &nn) || e.len() == 0 {
                assert(out@ + Seq::<char>::empty() == out@);
            } else if ends_with_chars(e.as_slice(), &n1) {
                append_chars(&mut out, &n1);
            } else {
                append_chars(&mut out, &nn);
            }
            append_chars(&mut out, new_block);
            out
        },
    }
}

/// The notes file's new text: just the block for a new file, else the old text with its
/// block replaced (or appended).
pub fn regenerate(existing: Option<&str>, board: &BoardBrief, framework: &str, platformio_ini: &str) -> (r: String)
    ensures
        r@ == regenerate_spec(
            match existing {
                Some(t) => Some(t@),
                None => None,
            },
            *board,
            framework@,
            platformio_ini@,
        ),
{
    let mut block = str_chars(BEGIN_MARKER);
    append_str(&mut block, "\n");
    let body = generated_body(board, framework, platformio_ini);
    append_chars(&mut block, body.as_slice());
    append_str(&mut block, END_MARKER);
    append_str(&mut block, "\n");
    match existing {
        None => string_from_chars(block.as_slice()),
        Some(text) => {
            let r = splice(text, block.as_slice());
            string_from_chars(r.as_slice())
        },
    }
}

/// Text outside the markers survives regeneration: whatever preceded the begin marker
/// starts the new text, and whatever followed the end marker (less one line feed) ends it;
/// a file without markers is kept whole at the start.
pub proof fn law_splice_keeps_user_text(existing: Seq<char>, block: Seq<char>)
    ensures
        ({
            let begin = find_sub(existing, BEGIN_MARKER@);
            let end = find_sub(existing, END_MARKER@);
            let out = splice_spec(existing, block);
            if begin >= 0 && end >= begin {
                out.take(begin) == existing.take(begin)
            } else {
                out.take(existing.len() as int) == existing
            }
        }),
{
    let begin = find_sub(existing, BEGIN_MARKER@);
    let end = find_sub(existing, END_MARKER@);
    crate::textops::lemma_find_from_bounds(existing, BEGIN_MARKER@, 0);
    crate::textops::lemma_find_from_bounds(existing, END_MARKER@, 0);
    let out = splice_spec(existing, block);
    if begin >= 0 && end >= begin {
        let after = existing.skip(end + END_MARKER@.len());
        let after2 = if after.len() > 0 && after[0] == '\n' {
            after.drop_first()
        } else {
            after
        };
        assert((existing.take(begin) + block + after2).take(begin) =~= existing.take(begin));
    } else {
        let sep = if ends_with(existing, "\n\n"@) || existing.len() == 0 {
            Seq::<char>::empty()
        } else if ends_with(existing, "\n"@) {
            "\n"@
        } else {
            "\n\n"@
        };
        assert((existing + sep + block).take(existing.len() as int) =~= existing);
    }
}


proof fn lemma_markers_have_one_open_bracket()
    ensures
        forall|k: int| 1 <= k < END_MARKER@.len() ==> END_MARKER@[k] != '<',
        forall|k: int| 1 <= k < BEGIN_MARKER@.len() ==> BEGIN_MARKER@[k] != '<',
{
    reveal_strlit("<!-- vibe-hardware:end -->");
    reveal_strlit("<!-- vibe-hardware:begin (generated \u{2014} edits inside this block are overwritten) -->");
}

proof fn lemma_find_first(s: Seq<char>, p: Seq<char>, i: int, t: int)
    requires
        0 <= i <= t,
        t + p.len() <= s.len(),
        s.subrange(t, t + p.len()) == p,
        forall|j: int| i <= j < t ==> #[trigger] s.subrange(j, j + p.len()) != p,
    ensures
        find_from(s, p, i) == t,
    decreases t - i,
{
    if i < t {
        assert(s.subrange(i, i + p.len()) != p);
        lemma_find_first(s, p, i + 1, t);
    }
}

proof fn lemma_find_none(s: Seq<char>, p: Seq<char>, i: int)
    requires
        0 <= i,
        find_from(s, p, i) == -1,
    ensures
        forall|j: int| i <= j && j + p.len() <= s.len() ==> #[trigger] s.subrange(j, j + p.len()) != p,
    decreases s.len() + 1 - i,
{
    if i + p.len() <= s.len() {
        lemma_find_none(s, p, i + 1);
    }
}

proof fn lemma_differs_at(s: Seq<char>, p: Seq<char>, j: int, m: int)
    requires
        0 <= j,
        0 <= m < p.len(),
        j + p.len() <= s.len(),
        s[j + m] != p[m],
    ensures
        s.subrange(j, j + p.len()) != p,
{
    assert(s.subrange(j, j + p.len())[m] == s[j + m]);
}

/// Regeneration keeps the user's text on both sides of the generated block byte for byte:
/// a file made of user text, an earlier block (begin marker, line feed, a body without an
/// end marker, end marker, line feed) and more user text becomes the same user text around
/// the new block, when the leading user text holds neither marker. So regenerating twice
/// changes nothing more than regenerating once.
pub proof fn law_regenerate_keeps_user_text(
    u1: Seq<char>,
    body: Seq<char>,
    u2: Seq<char>,
    b: BoardBrief,
    framework: Seq<char>,
    ini: Seq<char>,
)
    requires
        find_sub(u1, BEGIN_MARKER@) == -1,
        find_sub(u1, END_MARKER@) == -1,
        find_sub(body, END_MARKER@) == -1,
    ensures
        regenerate_spec(
            Some(u1 + (BEGIN_MARKER@ + "\n"@ + body + END_MARKER@ + "\n"@) + u2),
            b,
            framework,
            ini,
        ) == u1 + regenerate_spec(None, b, framework, ini) + u2,
{
    reveal_strlit("<!-- vibe-hardware:end -->");
    reveal_strlit("<!-- vibe-hardware:begin (generated \u{2014} edits inside this block are overwritten) -->");
    reveal_strlit("\n");
    lemma_markers_have_one_open_bracket();
    let bm = BEGIN_MARKER@;
    let em = END_MARKER@;
    let nl = "\n"@;
    let old = bm + nl + body + em + nl;
    let s = u1 + old + u2;
    let n1 = u1.len() as int;
    let nb = bm.len() as int;
    let e = n1 + nb + 1 + body.len();
    assert(nl.len() == 1 && nl[0] == '\n');
    assert(bm[0] == '<' && em[0] == '<');
    assert(bm[19] == 'b' && em[19] == 'e');
    assert forall|k: int| 0 <= k < nb implies #[trigger] s[n1 + k] == bm[k] by {
        assert(s[n1 + k] == old[k]);
    }
    assert(s[n1 + nb] == '\n') by {
        assert(s[n1 + nb] == old[nb]);
    }
    assert forall|k: int| 0 <= k < body.len() implies #[trigger] s[n1 + nb + 1 + k] == body[k] by {
        assert(s[n1 + nb + 1 + k] == old[nb + 1 + k]);
    }
    assert forall|k: int| 0 <= k < em.len() implies #[trigger] s[e + k] == em[k] by {
        assert(s[e + k] == old[nb + 1 + body.len() + k]);
    }
    assert forall|k: int| 0 <= k < n1 implies #[trigger] s[k] == u1[k] by {}
    lemma_find_none(u1, bm, 0);
    lemma_find_none(u1, em, 0);
    lemma_find_none(body, em, 0);
    // The begin marker is first found where the old block starts.
    assert(s.subrange(n1, n1 + nb) =~= bm);
    assert forall|j: int| 0 <= j < n1 implies #[trigger] s.subrange(j, j + nb) != bm by {
        if j + nb <= n1 {
            assert(s.subrange(j, j + nb) =~= u1.subrange(j, j + nb));
        } else {
            lemma_differs_at(s, bm, j, n1 - j);
        }
    }
    lemma_find_first(s, bm, 0, n1);
    // The end marker is first found where the old block's end marker stands.
    assert(s.subrange(e, e + em.len()) =~= em);
    assert forall|j: int| 0 <= j < e implies #[trigger] s.subrange(j, j + em.len()) != em by {
        if j < n1 {
            if j + em.len() <= n1 {
                assert(s.subrange(j, j + em.len()) =~= u1.subrange(j, j + em.len()));
            } else {
                lemma_differs_at(s, em, j, n1 - j);
            }
        } else if j == n1 {
            lemma_differs_at(s, em, j, 19);
        } else if j < n1 + nb {
            lemma_differs_at(s, em, j, 0);
        } else if j == n1 + nb {
            lemma_differs_at(s, em, j, 0);
        } else {
            let q = j - (n1 + nb + 1);
            if j + em.len() <= e {
                assert(s.subrange(j, j + em.len()) =~= body.subrange(q, q + em.len()));
            } else {
                lemma_differs_at(s, em, j, e - j);
            }
        }
    }
    lemma_find_first(s, em, 0, e);
    let after = s.skip(e + em.len());
    assert(after =~= nl + u2);
    assert(after.drop_first() =~= u2);
    assert(s.take(n1) =~= u1);
}
} // verus!
