//! Saved `platformio.ini` templates. A template is stored under a slug of its name, and
//! applying one merges only its `[env:*]` sections into a project: each becomes an
//! (idempotent) section addition followed by one set per declared option, so the target's
//! other keys and its global sections are never touched.
use crate::casing::{to_lowercase, unicode_lowercase};
use crate::clock::now_rfc3339;
use crate::textsort::{lemma_lex_total, lemma_lex_trans, lex_le, lex_le_exec};
use crate::ini::parse::{parse, parse_sections, SpecEntry, SpecSection};
use crate::ini::patch::{IniEdit, SpecEdit};
use crate::text::{split_keep, starts_with, starts_with_str, str_chars, str_to_string, string_from_chars, strings_view};
use vstd::prelude::*;

verus! {

pub const CURRENT_SCHEMA_VERSION: u32 = 1;

#[derive(Debug, Clone, PartialEq)]
pub struct IniTemplate {
    pub schema_version: u32,
    pub name: String,
    /// RFC 3339.
    pub created_at: String,
    pub ini: String,
    pub board_id: Option<String>,
    pub claude_md: Option<String>,
}

pub open spec fn is_ascii_alnum(c: char) -> bool {
    ('0' <= c && c <= '9') || ('a' <= c && c <= 'z') || ('A' <= c && c <= 'Z')
}

/// The slug built so far and whether it ends in a dash just added: letters and digits are
/// kept, and a run of anything else becomes one dash (never at the start).
pub open spec fn slug_fold(s: Seq<char>) -> (Seq<char>, bool)
    decreases s.len(),
{
    if s.len() == 0 {
        (Seq::empty(), false)
    } else {
        let (o, d) = slug_fold(s.drop_last());
        let c = s.last();
        if is_ascii_alnum(c) {
            (o.push(c), false)
        } else if !d && o.len() > 0 {
            (o.push('-'), true)
        } else {
            (o, d)
        }
    }
}

/// Number of trailing dashes.
pub open spec fn trailing_dashes(s: Seq<char>) -> nat
    decreases s.len(),
{
    if s.len() > 0 && s.last() == '-' {
        1 + trailing_dashes(s.drop_last())
    } else {
        0
    }
}

/// The slug of already-lowercased text: the fold with trailing dashes removed, or
/// `template` when nothing is left.
pub open spec fn slug_of_lowercase(lowered: Seq<char>) -> Seq<char> {
    let o = slug_fold(lowered).0;
    let t = o.take(o.len() - trailing_dashes(o));
    if t.len() == 0 {
        "template"@
    } else {
        t
    }
}

proof fn lemma_trailing_dashes(s: Seq<char>)
    ensures
        trailing_dashes(s) <= s.len(),
        forall|i: int| s.len() - trailing_dashes(s) <= i < s.len() ==> s[i] == '-',
        trailing_dashes(s) < s.len() ==> s[s.len() - trailing_dashes(s) - 1] != '-',
    decreases s.len(),
{
    if s.len() > 0 && s.last() == '-' {
        lemma_trailing_dashes(s.drop_last());
        assert forall|i: int| s.len() - trailing_dashes(s) <= i < s.len() implies s[i] == '-' by {
            if i < s.len() - 1 {
                assert(s.drop_last()[i] == s[i]);
            }
        }
        if trailing_dashes(s) < s.len() {
            assert(s.drop_last()[s.len() - trailing_dashes(s) - 1] == s[s.len() - trailing_dashes(s) - 1]);
        }
    }
}

/// The slug of text that is already lowercase.
pub fn slug_from_lowercase(lowered: &str) -> (r: String)
    ensures
        r@ == slug_of_lowercase(lowered@),
{
    let v = str_chars(lowered);
    let mut out: Vec<char> = Vec::new();
    let mut last_was_dash = false;
    let mut i: usize = 0;
    while i < v.len()
        invariant
            i <= v@.len(),
            v@ == lowered@,
            (out@, last_was_dash) == slug_fold(v@.take(i as int)),
        decreases v@.len() - i,
    {
        let c = v[i];
        proof {
            assert(v@.take(i + 1).drop_last() =~= v@.take(i as int));
            assert(v@.take(i + 1).last() == c);
        }
        if ('0' <= c && c <= '9') || ('a' <= c && c <= 'z') || ('A' <= c && c <= 'Z') {
            out.push(c);
            last_was_dash = false;
        } else if !last_was_dash && out.len() > 0 {
            out.push('-');
            last_was_dash = true;
        }
        i += 1;
    }
    assert(v@.take(v@.len() as int) =~= v@);
    let ghost o = out@;
    let mut n = out.len();
    assert(o.take(n as int) =~= o);
    while n > 0 && out[n - 1] == '-'
        invariant
            n <= o.len(),
            out@ == o,
            trailing_dashes(o) == (o.len() - n) + trailing_dashes(o.take(n as int)),
        decreases n,
    {
        proof {
            assert(o.take(n as int).drop_last() =~= o.take(n - 1));
        }
        n -= 1;
    }
    proof {
        assert(o.take(n as int) =~= o.take(n as int));
        if n > 0 {
            assert(o.take(n as int).last() == o[n - 1]);
        }
        assert(trailing_dashes(o.take(n as int)) == 0);
    }
    if n == 0 {
        proof {
            reveal_strlit("template");
        }
        return str_to_string("template");
    }
    let t = crate::text::sub_chars(out.as_slice(), 0, n);
    string_from_chars(t.as_slice())
}

pub open spec fn is_slug_char(c: char) -> bool {
    ('a' <= c && c <= 'z') || ('0' <= c && c <= '9') || c == '-'
}

/// A slug: non-empty, only small ASCII letters, digits and dashes, no dash at either end
/// and never two in a row.
pub open spec fn is_slug(s: Seq<char>) -> bool {
    &&& s.len() > 0
    &&& forall|i: int| 0 <= i < s.len() ==> is_slug_char(#[trigger] s[i])
    &&& s[0] != '-'
    &&& s[s.len() - 1] != '-'
    &&& forall|i: int| 0 <= i < s.len() - 1 ==> !(#[trigger] s[i] == '-' && s[i + 1] == '-')
}

/// The file-name-safe slug of a template name: lowercased, letters and digits kept, every
/// run of anything else one dash, no dash at either end; `template` when nothing is left.
/// The result is a slug, and a slug is its own slug.
pub fn slugify(name: &str) -> (r: String)
    ensures
        r@ == slug_of_lowercase(unicode_lowercase(name@)),
        is_slug(r@),
        is_slug(name@) ==> r@ == name@,
{
    let lowered = to_lowercase(name);
    proof {
        law_slug_is_lowercase(lowered@);
        if is_slug(name@) {
            assert forall|i: int| 0 <= i < name@.len() implies (#[trigger] name@[i]) <= '\u{7f}' && !crate::casing::is_ascii_upper(
                name@[i],
            ) by {
                assert(is_slug_char(name@[i]));
            }
            law_a_slug_is_its_own_slug(name@);
        }
    }
    slug_from_lowercase(lowered.as_str())
}

/// The file a template is stored in: its slug and `.json`.
pub fn template_file_name(name: &str) -> (r: String)
    ensures
        r@ == slug_of_lowercase(unicode_lowercase(name@)) + ".json"@,
{
    let slug = slugify(name);
    let mut v = str_chars(slug.as_str());
    crate::text::append_str(&mut v, ".json");
    string_from_chars(v.as_slice())
}

proof fn lemma_slug_fold_shape(s: Seq<char>)
    ensures
        ({
            let (o, d) = slug_fold(s);
            &&& forall|i: int| 0 <= i < o.len() ==> is_ascii_alnum(#[trigger] o[i]) || o[i] == '-'
            &&& o.len() > 0 ==> o[0] != '-'
            &&& forall|i: int| 0 <= i < o.len() - 1 ==> !(#[trigger] o[i] == '-' && o[i + 1] == '-')
            &&& d <==> (o.len() > 0 && o.last() == '-')
        }),
    decreases s.len(),
{
    if s.len() > 0 {
        lemma_slug_fold_shape(s.drop_last());
    }
}

/// A slug is never empty, holds only ASCII letters, digits and dashes, never starts or
/// ends with a dash, and never has two dashes in a row.
pub proof fn law_slug_shape(lowered: Seq<char>)
    ensures
        ({
            let r = slug_of_lowercase(lowered);
            &&& r.len() > 0
            &&& forall|i: int| 0 <= i < r.len() ==> is_ascii_alnum(#[trigger] r[i]) || r[i] == '-'
            &&& r[0] != '-'
            &&& r[r.len() - 1] != '-'
            &&& forall|i: int| 0 <= i < r.len() - 1 ==> !(#[trigger] r[i] == '-' && r[i + 1] == '-')
        }),
{
    lemma_slug_fold_shape(lowered);
    let o = slug_fold(lowered).0;
    lemma_trailing_dashes(o);
    let t = o.take(o.len() - trailing_dashes(o));
    if t.len() == 0 {
        reveal_strlit("template");
        assert("template"@.len() == 8);
    } else {
        assert forall|i: int| 0 <= i < t.len() - 1 implies !(#[trigger] t[i] == '-' && t[i + 1] == '-') by {
            assert(t[i] == o[i] && t[i + 1] == o[i + 1]);
        }
    }
}

proof fn lemma_slug_fold_chars(s: Seq<char>)
    ensures
        forall|i: int|
            0 <= i < slug_fold(s).0.len() ==> (#[trigger] slug_fold(s).0[i] == '-' || s.contains(slug_fold(s).0[i])),
    decreases s.len(),
{
    if s.len() > 0 {
        let t = s.drop_last();
        lemma_slug_fold_chars(t);
        let o = slug_fold(s).0;
        assert forall|i: int| 0 <= i < o.len() implies (#[trigger] o[i] == '-' || s.contains(o[i])) by {
            if i < slug_fold(t).0.len() {
                assert(o[i] == slug_fold(t).0[i]);
                if o[i] != '-' {
                    let k = choose|k: int| 0 <= k < t.len() && t[k] == o[i];
                    assert(s[k] == t[k]);
                }
            } else if o[i] != '-' {
                assert(o[i] == s.last());
                assert(s[s.len() - 1] == s.last());
            }
        }
    }
}

/// The slug of text with no ASCII capital letter (as lowercasing leaves it) is a slug: its
/// letters are small ones.
pub proof fn law_slug_is_lowercase(lowered: Seq<char>)
    requires
        forall|i: int| 0 <= i < lowered.len() ==> !crate::casing::is_ascii_upper(#[trigger] lowered[i]),
    ensures
        is_slug(slug_of_lowercase(lowered)),
{
    law_slug_shape(lowered);
    lemma_slug_fold_shape(lowered);
    lemma_slug_fold_chars(lowered);
    let o = slug_fold(lowered).0;
    lemma_trailing_dashes(o);
    let t = o.take(o.len() - trailing_dashes(o));
    let r = slug_of_lowercase(lowered);
    if t.len() == 0 {
        reveal_strlit("template");
        assert forall|i: int| 0 <= i < r.len() implies is_slug_char(#[trigger] r[i]) by {}
    } else {
        assert forall|i: int| 0 <= i < r.len() implies is_slug_char(#[trigger] r[i]) by {
            assert(r[i] == o[i]);
            assert(is_ascii_alnum(o[i]) || o[i] == '-');
            if o[i] != '-' {
                let k = choose|k: int| 0 <= k < lowered.len() && lowered[k] == o[i];
                assert(!crate::casing::is_ascii_upper(lowered[k]));
            }
        }
    }
}

proof fn lemma_slug_fold_of_slug_prefix(s: Seq<char>, k: int)
    requires
        is_slug(s),
        0 <= k <= s.len(),
    ensures
        slug_fold(s.take(k)) == (s.take(k), k > 0 && s[k - 1] == '-'),
    decreases k,
{
    if k > 0 {
        lemma_slug_fold_of_slug_prefix(s, k - 1);
        assert(s.take(k).drop_last() =~= s.take(k - 1));
        assert(s.take(k).last() == s[k - 1]);
        assert(s.take(k - 1).push(s[k - 1]) =~= s.take(k));
        assert(is_slug_char(s[k - 1]));
        if s[k - 1] == '-' {
            assert(k - 1 > 0);
            assert(!(s[k - 2] == '-' && s[k - 1] == '-'));
        }
    } else {
        assert(s.take(0) =~= Seq::<char>::empty());
    }
}

/// A slug is its own slug: slugging is idempotent on what it produces.
pub proof fn law_a_slug_is_its_own_slug(s: Seq<char>)
    requires
        is_slug(s),
    ensures
        slug_of_lowercase(s) == s,
{
    lemma_slug_fold_of_slug_prefix(s, s.len() as int);
    assert(s.take(s.len() as int) =~= s);
    assert(trailing_dashes(s) == 0);
    assert(s.take(s.len() - 0) =~= s);
}

/// The edits of one template section: its addition, then one set per entry.
pub open spec fn section_edits(sec: SpecSection) -> Seq<SpecEdit> {
    seq![SpecEdit::AddSection { name: sec.name }] + sec.entries.map_values(
        |e: SpecEntry| SpecEdit::SetValue { section: sec.name, name: e.name, values: e.values },
    )
}

/// The edits of the template's `env:` sections, in order.
pub open spec fn merge_edits_spec(secs: Seq<SpecSection>) -> Seq<SpecEdit>
    decreases secs.len(),
{
    if secs.len() == 0 {
        Seq::empty()
    } else if starts_with(secs.last().name, "env:"@) {
        merge_edits_spec(secs.drop_last()) + section_edits(secs.last())
    } else {
        merge_edits_spec(secs.drop_last())
    }
}

fn copy_strings(v: &Vec<String>) -> (r: Vec<String>)
    ensures
        r@ == v@,
{
    let mut out: Vec<String> = Vec::new();
    let mut i: usize = 0;
    while i < v.len()
        invariant
            i <= v@.len(),
            out@ == v@.take(i as int),
        decreases v@.len() - i,
    {
        out.push(v[i].clone());
        assert(out@ =~= v@.take(i + 1));
        i += 1;
    }
    assert(v@.take(v@.len() as int) =~= v@);
    out
}

/// The edits that merge the template's `[env:*]` sections into a project.
pub fn merge_edits(template: &IniTemplate) -> (r: Vec<IniEdit>)
    ensures
        r@.map_values(|e: IniEdit| e.view()) == merge_edits_spec(parse_sections(split_keep(template.ini@))),
{
    let doc = parse(template.ini.as_str());
    let ghost secs = doc.sections_view();
    let mut edits: Vec<IniEdit> = Vec::new();
    let mut i: usize = 0;
    while i < doc.sections.len()
        invariant
            i <= doc.sections@.len(),
            secs == doc.sections_view(),
            edits@.map_values(|e: IniEdit| e.view()) == merge_edits_spec(secs.take(i as int)),
        decreases doc.sections@.len() - i,
    {
        let section = &doc.sections[i];
        proof {
            assert(secs[i as int] == section.view());
            assert(secs.take(i + 1).drop_last() =~= secs.take(i as int));
            assert(secs.take(i + 1).last() == section.view());
        }
        let nm = str_chars(section.name.as_str());
        if starts_with_str(nm.as_slice(), "env:") {
            let ghost e0 = edits@.map_values(|e: IniEdit| e.view());
            edits.push(IniEdit::AddSection { name: section.name.clone() });
            let mut k: usize = 0;
            while k < section.entries.len()
                invariant
                    k <= section.entries@.len(),
                    edits@.map_values(|e: IniEdit| e.view()) == e0 + seq![SpecEdit::AddSection { name: section.view().name }]
                        + section.view().entries.take(k as int).map_values(
                        |e: SpecEntry| SpecEdit::SetValue { section: section.view().name, name: e.name, values: e.values },
                    ),
                decreases section.entries@.len() - k,
            {
                let entry = &section.entries[k];
                let ed = IniEdit::SetValue { section: section.name.clone(), name: entry.name.clone(), values: copy_strings(&entry.values) };
                let ghost e1 = edits@.map_values(|e: IniEdit| e.view());
                edits.push(ed);
                proof {
                    assert(section.view().entries[k as int] == entry.view());
                    assert(edits@.map_values(|e: IniEdit| e.view()) =~= e1.push(ed.view()));
                    assert(section.view().entries.take(k + 1).map_values(
                        |e: SpecEntry| SpecEdit::SetValue { section: section.view().name, name: e.name, values: e.values },
                    ) =~= section.view().entries.take(k as int).map_values(
                        |e: SpecEntry| SpecEdit::SetValue { section: section.view().name, name: e.name, values: e.values },
                    ).push(ed.view()));
                }
                k += 1;
            }
            proof {
                assert(section.view().entries.take(section.entries@.len() as int) =~= section.view().entries);
                assert(edits@.map_values(|e: IniEdit| e.view()) =~= e0 + section_edits(section.view()));
            }
        }
        i += 1;
    }
    assert(secs.take(doc.sections@.len() as int) =~= secs);
    edits
}

/// A merge never edits a section outside `env:*`: every edit names an `env:` section.
pub proof fn law_merge_only_touches_env_sections(secs: Seq<SpecSection>)
    ensures
        forall|i: int| 0 <= i < merge_edits_spec(secs).len() ==> match #[trigger] merge_edits_spec(secs)[i] {
            SpecEdit::AddSection { name } => starts_with(name, "env:"@),
            SpecEdit::SetValue { section, .. } => starts_with(section, "env:"@),
            _ => false,
        },
    decreases secs.len(),
{
    if secs.len() > 0 {
        law_merge_only_touches_env_sections(secs.drop_last());
        let prev = merge_edits_spec(secs.drop_last());
        if starts_with(secs.last().name, "env:"@) {
            let se = section_edits(secs.last());
            assert forall|i: int| 0 <= i < (prev + se).len() implies match #[trigger] (prev + se)[i] {
                SpecEdit::AddSection { name } => starts_with(name, "env:"@),
                SpecEdit::SetValue { section, .. } => starts_with(section, "env:"@),
                _ => false,
            } by {
                if i >= prev.len() {
                    let j = i - prev.len();
                    if j > 0 {
                        assert(se[j] == SpecEdit::SetValue {
                            section: secs.last().name,
                            name: secs.last().entries[j - 1].name,
                            values: secs.last().entries[j - 1].values,
                        });
                    }
                } else {
                    assert(prev[i] == (prev + se)[i]);
                }
            }
        }
    }
}

/// A template of the current text, stamped with the current time as its creation time.
pub fn new_template(name: &str, ini: String, board_id: Option<String>, claude_md: Option<String>) -> (r: IniTemplate)
    ensures
        r.schema_version == CURRENT_SCHEMA_VERSION,
        r.name@ == name@,
        r.ini == ini,
        r.board_id == board_id,
        r.claude_md == claude_md,
        crate::clock::utc_rfc3339_text(r.created_at@),
{
    IniTemplate {
        schema_version: CURRENT_SCHEMA_VERSION,
        name: str_to_string(name),
        created_at: now_rfc3339(),
        ini,
        board_id,
        claude_md,
    }
}

/// The templates of `s` named `n`, in their order.
pub open spec fn named(s: Seq<IniTemplate>, n: Seq<char>) -> Seq<IniTemplate>
    decreases s.len(),
{
    if s.len() == 0 {
        Seq::empty()
    } else {
        (if s[0].name@ == n {
            seq![s[0]]
        } else {
            Seq::empty()
        }) + named(s.drop_first(), n)
    }
}

proof fn lemma_named_append(a: Seq<IniTemplate>, b: Seq<IniTemplate>, n: Seq<char>)
    ensures
        named(a + b, n) == named(a, n) + named(b, n),
    decreases a.len(),
{
    if a.len() > 0 {
        lemma_named_append(a.drop_first(), b, n);
        assert((a + b).drop_first() =~= a.drop_first() + b);
        assert((a + b)[0] == a[0]);
    } else {
        assert(a + b =~= b);
    }
}

proof fn lemma_named_none(a: Seq<IniTemplate>, n: Seq<char>)
    requires
        forall|k: int| 0 <= k < a.len() ==> (#[trigger] a[k]).name@ != n,
    ensures
        named(a, n) == Seq::<IniTemplate>::empty(),
    decreases a.len(),
{
    if a.len() > 0 {
        assert forall|k: int| 0 <= k < a.drop_first().len() implies (#[trigger] a.drop_first()[k]).name@ != n by {
            assert(a.drop_first()[k] == a[k + 1]);
        }
        lemma_named_none(a.drop_first(), n);
    }
}

proof fn lemma_named_single(x: IniTemplate, n: Seq<char>)
    ensures
        named(seq![x], n) == (if x.name@ == n {
            seq![x]
        } else {
            Seq::<IniTemplate>::empty()
        }),
{
    let e = Seq::<IniTemplate>::empty();
    assert(seq![x].drop_first() =~= e);
    assert(named(e, n) == e);
    assert(seq![x][0] == x);
    if x.name@ == n {
        assert(seq![x] + e =~= seq![x]);
    } else {
        assert(e + e =~= e);
    }
}

/// Templates in name order, as a stable sort leaves them: the same templates, each name no
/// greater than the next, and templates of equal name in their original order.
pub fn sort_by_name(templates: Vec<IniTemplate>) -> (r: Vec<IniTemplate>)
    ensures
        r@.to_multiset() == templates@.to_multiset(),
        forall|p: int, q: int| 0 <= p < q < r@.len() ==> lex_le(#[trigger] r@[p].name@, #[trigger] r@[q].name@),
        forall|n: Seq<char>| #[trigger] named(r@, n) == named(templates@, n),
{
    let ghost all = templates@;
    let mut rest = templates;
    let mut out: Vec<IniTemplate> = Vec::new();
    proof {
        vstd::seq_lib::to_multiset_len(out@);
        vstd::multiset::lemma_multiset_empty_len(out@.to_multiset());
        assert(out@.to_multiset().add(rest@.to_multiset()) =~= all.to_multiset());
        assert(all.skip(all.len() as int) =~= Seq::<IniTemplate>::empty());
        assert forall|n: Seq<char>| #[trigger] named(out@, n) == named(all.skip(rest@.len() as int), n) by {
            assert(out@ =~= Seq::<IniTemplate>::empty());
        }
    }
    while rest.len() > 0
        invariant
            rest@ == all.take(rest@.len() as int),
            rest@.len() <= all.len(),
            out@.to_multiset().add(rest@.to_multiset()) == all.to_multiset(),
            forall|p: int, q: int| 0 <= p < q < out@.len() ==> lex_le(#[trigger] out@[p].name@, #[trigger] out@[q].name@),
            forall|n: Seq<char>| #[trigger] named(out@, n) == named(all.skip(rest@.len() as int), n),
        decreases rest@.len(),
    {
        let ghost rest_before = rest@;
        let x = rest.pop().unwrap();
        proof {
            assert(rest_before =~= rest@.push(x));
            vstd::seq_lib::to_multiset_build(rest@, x);
            assert(rest@ =~= all.take(rest@.len() as int));
            assert(all.skip(rest@.len() as int) =~= seq![x] + all.skip(rest_before.len() as int)) by {
                assert(all[rest@.len() as int] == rest_before[rest@.len() as int]);
            }
        }
        let xc = str_chars(x.name.as_str());
        let mut j: usize = 0;
        while j < out.len()
            invariant
                j <= out@.len(),
                xc@ == x.name@,
                forall|k: int| 0 <= k < j ==> !lex_le(x.name@, (#[trigger] out@[k]).name@),
            ensures
                j <= out@.len(),
                forall|k: int| 0 <= k < j ==> !lex_le(x.name@, (#[trigger] out@[k]).name@),
                j < out@.len() ==> lex_le(x.name@, out@[j as int].name@),
            decreases out@.len() - j,
        {
            let oc = str_chars(out[j].name.as_str());
            if lex_le_exec(xc.as_slice(), oc.as_slice()) {
                break;
            }
            j += 1;
        }
        let ghost before = out@;
        proof {
            assert forall|k: int| 0 <= k < j implies lex_le((#[trigger] before[k]).name@, x.name@) && before[k].name@
                != x.name@ by {
                lemma_lex_total(before[k].name@, x.name@);
                if before[k].name@ == x.name@ {
                    lemma_lex_total(x.name@, x.name@);
                }
            }
        }
        out.insert(j, x);
        proof {
            assert forall|p: int, q: int| 0 <= p < q < out@.len() implies lex_le(
                #[trigger] out@[p].name@,
                #[trigger] out@[q].name@,
            ) by {
                if q < j {
                    assert(out@[p] == before[p] && out@[q] == before[q]);
                } else if q == j {
                    assert(out@[p] == before[p] && out@[q] == x);
                } else if p < j {
                    assert(out@[p] == before[p] && out@[q] == before[q - 1]);
                    assert(lex_le(before[p].name@, before[q - 1].name@));
                } else if p == j {
                    assert(out@[p] == x && out@[q] == before[q - 1]);
                    if q - 1 > j {
                        assert(lex_le(before[j as int].name@, before[q - 1].name@));
                        lemma_lex_trans(x.name@, before[j as int].name@, before[q - 1].name@);
                    }
                } else {
                    assert(out@[p] == before[p - 1] && out@[q] == before[q - 1]);
                    assert(lex_le(before[p - 1].name@, before[q - 1].name@));
                }
            }
            vstd::seq_lib::to_multiset_insert(before, j as int, x);
            assert(out@ =~= before.take(j as int) + seq![x] + before.skip(j as int));
            assert(before =~= before.take(j as int) + before.skip(j as int));
            assert forall|n: Seq<char>| #[trigger] named(out@, n) == named(all.skip(rest@.len() as int), n) by {
                lemma_named_append(before.take(j as int) + seq![x], before.skip(j as int), n);
                lemma_named_append(before.take(j as int), seq![x], n);
                lemma_named_append(before.take(j as int), before.skip(j as int), n);
                lemma_named_append(seq![x], all.skip(rest_before.len() as int), n);
                lemma_named_single(x, n);
                if x.name@ == n {
                    assert forall|k: int| 0 <= k < before.take(j as int).len() implies (#[trigger] before.take(
                        j as int,
                    )[k]).name@ != n by {
                        assert(before.take(j as int)[k] == before[k]);
                    }
                    lemma_named_none(before.take(j as int), n);
                    assert(named(before.take(j as int), n) + named(before.skip(j as int), n) =~= named(
                        before.skip(j as int),
                        n,
                    ));
                    assert(named(out@, n) =~= seq![x] + named(before.skip(j as int), n));
                } else {
                    assert(named(out@, n) =~= named(before.take(j as int), n) + named(before.skip(j as int), n));
                    assert(named(seq![x] + all.skip(rest_before.len() as int), n) =~= named(
                        all.skip(rest_before.len() as int),
                        n,
                    ));
                }
            }
        }
    }
    proof {
        vstd::seq_lib::to_multiset_len(rest@);
        vstd::multiset::lemma_multiset_empty_len(rest@.to_multiset());
        assert(out@.to_multiset() =~= out@.to_multiset().add(rest@.to_multiset()));
        assert(all.skip(0) =~= all);
    }
    out
}

} // verus!
