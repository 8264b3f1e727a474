//! The document shown for a `platformio.ini`: each declared section with its own options
//! and its effective (inheritance-resolved) options, where an option that is not declared
//! in the section is marked with the section it is inherited from, when that can be
//! traced (the `[env]` section, or the section that `extends` names, one level deep).
use crate::ini::parse::{find_entry, find_section, parse, parse_sections, Entry, IniDoc, Section, SpecEntry, SpecSection};
use crate::text::{split_keep, starts_with, starts_with_str, str_chars, str_to_string, strings_view};
use crate::textsort::lex_le;
use vstd::prelude::*;

verus! {

#[derive(Debug, Clone)]
pub struct IniDocument {
    pub raw: String,
    pub sections: Vec<IniSection>,
    pub mtime_ms: u64,
}

#[derive(Debug, Clone)]
pub struct IniSection {
    pub name: String,
    pub declared: Vec<IniEntry>,
    pub effective: Vec<IniEntry>,
}

#[derive(Debug, Clone, PartialEq)]
pub struct IniEntry {
    pub name: String,
    pub values: Vec<String>,
    /// The section an effective value is inherited from, when it is not declared here and
    /// its origin can be traced.
    pub inherited_from: Option<String>,
}

/// One section of the effective configuration: its name and its options with their
/// values. The configuration is a map from option name to values, so a well-formed section
/// ([`EffectiveSection::wf`]) lists each name once, in ascending order.
#[derive(Debug, Clone)]
pub struct EffectiveSection {
    pub name: String,
    pub options: Vec<(String, Vec<String>)>,
}

/// Option names strictly ascending (so each appears once).
pub open spec fn options_wf(o: Seq<(Seq<char>, Seq<Seq<char>>)>) -> bool {
    forall|p: int, q: int|
        0 <= p < q < o.len() ==> lex_le((#[trigger] o[p]).0, (#[trigger] o[q]).0) && o[p].0 != o[q].0
}

impl EffectiveSection {
    pub open spec fn wf(&self) -> bool {
        options_wf(options_view(self.options@))
    }
}

/// An entry: name, values, inherited-from.
pub type EntryModel = (Seq<char>, Seq<Seq<char>>, Option<Seq<char>>);

pub open spec fn entry_model(e: IniEntry) -> EntryModel {
    (e.name@, strings_view(e.values@), crate::matching::opt_view(e.inherited_from))
}

pub open spec fn entries_model(v: Seq<IniEntry>) -> Seq<EntryModel> {
    v.map_values(|e: IniEntry| entry_model(e))
}

/// A section: name, declared entries, effective entries.
pub type SectionModel = (Seq<char>, Seq<EntryModel>, Seq<EntryModel>);

pub open spec fn section_model(s: IniSection) -> SectionModel {
    (s.name@, entries_model(s.declared@), entries_model(s.effective@))
}

pub open spec fn options_view(o: Seq<(String, Vec<String>)>) -> Seq<(Seq<char>, Seq<Seq<char>>)> {
    o.map_values(|p: (String, Vec<String>)| (p.0@, strings_view(p.1@)))
}

/// The options of the first effective section named `name`.
pub open spec fn effective_lookup(eff: Seq<EffectiveSection>, name: Seq<char>) -> Option<Seq<(Seq<char>, Seq<Seq<char>>)>>
    decreases eff.len(),
{
    if eff.len() == 0 {
        None
    } else {
        match effective_lookup(eff.drop_last(), name) {
            Some(o) => Some(o),
            None => if eff.last().name@ == name {
                Some(options_view(eff.last().options@))
            } else {
                None
            },
        }
    }
}

/// Where section `sec` inherits option `opt` from: only `env:` sections inherit; first
/// from `[env]` when it declares the option, else from the section its `extends` names
/// when that one declares it.
pub open spec fn inherited_from_spec(secs: Seq<SpecSection>, sec: SpecSection, opt: Seq<char>) -> Option<Seq<char>> {
    if !starts_with(sec.name, "env:"@) {
        None
    } else if find_section(secs, "env"@) >= 0 && find_entry(secs[find_section(secs, "env"@)].entries, opt) >= 0 {
        Some("env"@)
    } else {
        let xi = find_entry(sec.entries, "extends"@);
        if xi >= 0 && sec.entries[xi].values.len() > 0 {
            let target = sec.entries[xi].values[0];
            let ti = find_section(secs, target);
            if ti >= 0 && find_entry(secs[ti].entries, opt) >= 0 {
                Some(target)
            } else {
                None
            }
        } else {
            None
        }
    }
}

/// An effective option of a section: the declared values when the section declares it,
/// else the effective values with their traced origin.
pub open spec fn effective_entry(secs: Seq<SpecSection>, sec: SpecSection, opt: (Seq<char>, Seq<Seq<char>>)) -> EntryModel {
    let di = find_entry(sec.entries, opt.0);
    if di >= 0 {
        (opt.0, sec.entries[di].values, None)
    } else {
        (opt.0, opt.1, inherited_from_spec(secs, sec, opt.0))
    }
}

pub open spec fn declared_entry(e: SpecEntry) -> EntryModel {
    (e.name, e.values, None)
}

/// The document section of a declared section.
pub open spec fn document_section(secs: Seq<SpecSection>, sec: SpecSection, eff: Seq<EffectiveSection>) -> SectionModel {
    (
        sec.name,
        sec.entries.map_values(|e: SpecEntry| declared_entry(e)),
        match effective_lookup(eff, sec.name) {
            Some(opts) => opts.map_values(|o: (Seq<char>, Seq<Seq<char>>)| effective_entry(secs, sec, o)),
            None => Seq::empty(),
        },
    )
}

/// The document sections of `ss`, leaving out the unnamed preamble.
pub open spec fn document_sections(secs: Seq<SpecSection>, ss: Seq<SpecSection>, eff: Seq<EffectiveSection>) -> Seq<SectionModel>
    decreases ss.len(),
{
    if ss.len() == 0 {
        Seq::empty()
    } else if ss.last().name.len() == 0 {
        document_sections(secs, ss.drop_last(), eff)
    } else {
        document_sections(secs, ss.drop_last(), eff).push(document_section(secs, ss.last(), eff))
    }
}

fn copy_strings(v: &Vec<String>) -> (r: Vec<String>)
    ensures
        r@ == v@,
{
    let mut out: Vec<String> = Vec::new();
    let mut i: usize = 0;
    while i < v.len()
        invariant
            i <= v@.len(),
            out@ == v@.take(i as int),
        decreases v@.len() - i,
    {
        out.push(v[i].clone());
        assert(out@ =~= v@.take(i + 1));
        i += 1;
    }
    assert(v@.take(v@.len() as int) =~= v@);
    out
}

fn inherited_from(doc: &IniDoc, section: &Section, option_name: &str) -> (r: Option<String>)
    ensures
        crate::matching::opt_view(r) == inherited_from_spec(doc.sections_view(), section.view(), option_name@),
{
    let nm = str_chars(section.name.as_str());
    if !starts_with_str(nm.as_slice(), "env:") {
        return None;
    }
    match doc.section("env") {
        Some(env_section) => {
            if env_section.entry(option_name).is_some() {
                return Some(str_to_string("env"));
            }
        },
        None => {},
    }
    match section.entry("extends") {
        Some(extends_entry) => {
            if extends_entry.values.len() > 0 {
                let target_name = &extends_entry.values[0];
                assert(extends_entry.view().values[0] == target_name@);
                match doc.section(target_name.as_str()) {
                    Some(target_section) => {
                        if target_section.entry(option_name).is_some() {
                            return Some(target_name.clone());
                        }
                        None
                    },
                    None => None,
                }
            } else {
                None
            }
        },
        None => None,
    }
}

fn effective_options<'a>(effective: &'a Vec<EffectiveSection>, name: &str) -> (r: Option<&'a Vec<(String, Vec<String>)>>)
    ensures
        match r {
            Some(o) => effective_lookup(effective@, name@) == Some(options_view(o@)),
            None => effective_lookup(effective@, name@) is None,
        },
{
    let mut i: usize = 0;
    while i < effective.len()
        invariant
            i <= effective@.len(),
            effective_lookup(effective@.take(i as int), name@) is None,
        decreases effective@.len() - i,
    {
        assert(effective@.take(i + 1).drop_last() =~= effective@.take(i as int));
        if crate::text::str_eq(effective[i].name.as_str(), name) {
            proof {
                lemma_lookup_prefix(effective@, name@, i + 1);
            }
            return Some(&effective[i].options);
        }
        i += 1;
    }
    assert(effective@.take(effective@.len() as int) =~= effective@);
    None
}

proof fn lemma_lookup_prefix(eff: Seq<EffectiveSection>, name: Seq<char>, k: int)
    requires
        0 <= k <= eff.len(),
        effective_lookup(eff.take(k), name) is Some,
    ensures
        effective_lookup(eff, name) == effective_lookup(eff.take(k), name),
    decreases eff.len() - k,
{
    if k < eff.len() {
        assert(eff.take(k + 1).drop_last() =~= eff.take(k));
        lemma_lookup_prefix(eff, name, k + 1);
    } else {
        assert(eff.take(k) =~= eff);
    }
}

fn declared_entries(section: &Section) -> (r: Vec<IniEntry>)
    ensures
        entries_model(r@) == section.view().entries.map_values(|e: SpecEntry| declared_entry(e)),
{
    let mut out: Vec<IniEntry> = Vec::new();
    let mut i: usize = 0;
    while i < section.entries.len()
        invariant
            i <= section.entries@.len(),
            entries_model(out@) == section.view().entries.take(i as int).map_values(|e: SpecEntry| declared_entry(e)),
        decreases section.entries@.len() - i,
    {
        let e = &section.entries[i];
        let ne = IniEntry { name: e.name.clone(), values: copy_strings(&e.values), inherited_from: None };
        let ghost m0 = entries_model(out@);
        out.push(ne);
        proof {
            assert(section.view().entries[i as int] == e.view());
            assert(entries_model(out@) =~= m0.push(entry_model(ne)));
            assert(section.view().entries.take(i + 1).map_values(|e: SpecEntry| declared_entry(e))
                =~= section.view().entries.take(i as int).map_values(|e: SpecEntry| declared_entry(e)).push(declared_entry(e.view())));
        }
        i += 1;
    }
    assert(section.view().entries.take(section.entries@.len() as int) =~= section.view().entries);
    out
}

fn effective_entries(doc: &IniDoc, section: &Section, opts: &Vec<(String, Vec<String>)>) -> (r: Vec<IniEntry>)
    ensures
        entries_model(r@) == options_view(opts@).map_values(
            |o: (Seq<char>, Seq<Seq<char>>)| effective_entry(doc.sections_view(), section.view(), o),
        ),
{
    let mut out: Vec<IniEntry> = Vec::new();
    let mut i: usize = 0;
    let ghost f = |o: (Seq<char>, Seq<Seq<char>>)| effective_entry(doc.sections_view(), section.view(), o);
    while i < opts.len()
        invariant
            i <= opts@.len(),
            f == (|o: (Seq<char>, Seq<Seq<char>>)| effective_entry(doc.sections_view(), section.view(), o)),
            entries_model(out@) == options_view(opts@).take(i as int).map_values(f),
        decreases opts@.len() - i,
    {
        let (name, values) = &opts[i];
        let ne = match section.entry(name.as_str()) {
            Some(d) => IniEntry { name: name.clone(), values: copy_strings(&d.values), inherited_from: None },
            None => IniEntry {
                name: name.clone(),
                values: copy_strings(values),
                inherited_from: inherited_from(doc, section, name.as_str()),
            },
        };
        let ghost m0 = entries_model(out@);
        out.push(ne);
        proof {
            assert(options_view(opts@)[i as int] == (name@, strings_view(values@)));
            assert(entries_model(out@) =~= m0.push(entry_model(ne)));
            assert(options_view(opts@).take(i + 1).map_values(f) =~= options_view(opts@).take(i as int).map_values(f).push(
                f(options_view(opts@)[i as int]),
            ));
        }
        i += 1;
    }
    assert(options_view(opts@).take(opts@.len() as int) =~= options_view(opts@));
    out
}

/// The document of `raw` given its effective configuration and the file's modification
/// time: every named section (the preamble is left out) with its declared and effective
/// entries. The text and the time pass through unchanged.
pub fn build_document(raw: &str, effective: &Vec<EffectiveSection>, mtime_ms: u64) -> (r: IniDocument)
    ensures
        r.raw@ == raw@,
        r.mtime_ms == mtime_ms,
        r.sections@.map_values(|s: IniSection| section_model(s)) == document_sections(
            parse_sections(split_keep(raw@)),
            parse_sections(split_keep(raw@)),
            effective@,
        ),
{
    let doc = parse(raw);
    let ghost secs = doc.sections_view();
    let mut sections: Vec<IniSection> = Vec::new();
    let mut i: usize = 0;
    while i < doc.sections.len()
        invariant
            i <= doc.sections@.len(),
            secs == doc.sections_view(),
            sections@.map_values(|s: IniSection| section_model(s)) == document_sections(secs, secs.take(i as int), effective@),
        decreases doc.sections@.len() - i,
    {
        let section = &doc.sections[i];
        proof {
            assert(secs[i as int] == section.view());
            assert(secs.take(i + 1).drop_last() =~= secs.take(i as int));
            assert(secs.take(i + 1).last() == section.view());
        }
        if section.name.as_str().unicode_len() > 0 {
            let declared = declared_entries(section);
            let eff = match effective_options(effective, section.name.as_str()) {
                Some(opts) => effective_entries(&doc, section, opts),
                None => Vec::new(),
            };
            let s = IniSection { name: section.name.clone(), declared, effective: eff };
            let ghost m0 = sections@.map_values(|s: IniSection| section_model(s));
            sections.push(s);
            proof {
                assert(sections@.map_values(|s: IniSection| section_model(s)) =~= m0.push(section_model(s)));
                if effective_lookup(effective@, section.view().name) is None {
                    assert(entries_model(s.effective@) =~= Seq::<EntryModel>::empty());
                }
                assert(section_model(s) == document_section(secs, section.view(), effective@));
            }
        } else {
            assert(section.view().name.len() == 0);
        }
        i += 1;
    }
    assert(secs.take(doc.sections@.len() as int) =~= secs);
    IniDocument { raw: str_to_string(raw), sections, mtime_ms }
}


proof fn lemma_lookup_is_some_section(eff: Seq<EffectiveSection>, name: Seq<char>)
    ensures
        effective_lookup(eff, name) matches Some(o) ==> exists|k: int|
            0 <= k < eff.len() && o == options_view((#[trigger] eff[k]).options@),
    decreases eff.len(),
{
    if eff.len() > 0 {
        lemma_lookup_is_some_section(eff.drop_last(), name);
        if effective_lookup(eff.drop_last(), name) is Some {
            let o = effective_lookup(eff.drop_last(), name).unwrap();
            let k = choose|k: int| 0 <= k < eff.drop_last().len() && o == options_view((#[trigger] eff.drop_last()[k]).options@);
            assert(eff[k] == eff.drop_last()[k]);
        } else if eff.last().name@ == name {
            assert(eff[eff.len() - 1] == eff.last());
        }
    }
}

/// When every section of the effective configuration is well formed, a document section
/// lists its effective entries by option name, each once, in ascending order.
pub proof fn law_effective_entries_in_name_order(secs: Seq<SpecSection>, sec: SpecSection, eff: Seq<EffectiveSection>)
    requires
        forall|k: int| 0 <= k < eff.len() ==> (#[trigger] eff[k]).wf(),
    ensures
        ({
            let es = document_section(secs, sec, eff).2;
            forall|p: int, q: int|
                0 <= p < q < es.len() ==> lex_le((#[trigger] es[p]).0, (#[trigger] es[q]).0) && es[p].0 != es[q].0
        }),
{
    lemma_lookup_is_some_section(eff, sec.name);
    match effective_lookup(eff, sec.name) {
        Some(opts) => {
            let k = choose|k: int| 0 <= k < eff.len() && opts == options_view((#[trigger] eff[k]).options@);
            assert(eff[k].wf());
            let es = document_section(secs, sec, eff).2;
            assert forall|p: int, q: int| 0 <= p < q < es.len() implies lex_le((#[trigger] es[p]).0, (#[trigger] es[q]).0)
                && es[p].0 != es[q].0 by {
                assert(es[p].0 == opts[p].0);
                assert(es[q].0 == opts[q].0);
            }
        },
        None => {},
    }
}
} // verus!
