//! The PlatformIO registry's package search: the query text (free text and `key:"value"`
//! qualifiers, space-joined) and the packages of a search response, where an item missing
//! a required field is skipped rather than failing the page.
use crate::text::{append_chars, append_str, str_chars, string_from_chars, strings_view, trim, trim_chars};
use crate::textops::{join_strings, join_with};
use vstd::prelude::*;

verus! {

pub const PRIMARY_HOST: &'static str = "https://api.registry.platformio.org";

pub const MIRROR_HOST: &'static str = "https://api.registry.nm1.platformio.org";

#[derive(Debug, Clone)]
pub struct RegistryPackage {
    pub owner: String,
    pub name: String,
    /// The package type (`library`, `platform` or `tool`).
    pub kind: String,
    pub tier: String,
    pub description: String,
    pub version: String,
    pub released_at: Option<String>,
    /// Filled in by the caller from the workspace's installed packages.
    pub installed_version: Option<String>,
}

#[derive(Debug, Clone)]
pub struct PackagePage {
    pub items: Vec<RegistryPackage>,
    pub page: u32,
    pub total: u32,
    pub limit: u32,
}

/// `key:"value"`.
pub open spec fn qualifier(k: Seq<char>, v: Seq<char>) -> Seq<char> {
    k + ":\""@ + v + "\""@
}

/// The free text (trimmed, left out when empty) and then each qualifier, space-joined.
pub open spec fn query_spec(free_text: Seq<char>, quals: Seq<(Seq<char>, Seq<char>)>) -> Seq<char> {
    let parts = quals.map_values(|q: (Seq<char>, Seq<char>)| qualifier(q.0, q.1));
    if trim(free_text).len() > 0 {
        join_with(seq![trim(free_text)] + parts, " "@)
    } else {
        join_with(parts, " "@)
    }
}

pub fn build_query(free_text: &str, qualifiers: &[(String, String)]) -> (r: String)
    ensures
        r@ == query_spec(free_text@, qualifiers@.map_values(|q: (String, String)| (q.0@, q.1@))),
{
    let ghost qs = qualifiers@.map_values(|q: (String, String)| (q.0@, q.1@));
    let ghost qparts = qs.map_values(|q: (Seq<char>, Seq<char>)| qualifier(q.0, q.1));
    let mut parts: Vec<String> = Vec::new();
    let t = trim_chars(str_chars(free_text).as_slice());
    let ghost head = if trim(free_text@).len() > 0 { seq![trim(free_text@)] } else { Seq::<Seq<char>>::empty() };
    if t.len() > 0 {
        parts.push(string_from_chars(t.as_slice()));
    }
    assert(strings_view(parts@) =~= head);
    let mut i: usize = 0;
    while i < qualifiers.len()
        invariant
            i <= qualifiers@.len(),
            qs == qualifiers@.map_values(|q: (String, String)| (q.0@, q.1@)),
            qparts == qs.map_values(|q: (Seq<char>, Seq<char>)| qualifier(q.0, q.1)),
            strings_view(parts@) == head + qparts.take(i as int),
        decreases qualifiers@.len() - i,
    {
        let (k, v) = &qualifiers[i];
        let mut p = str_chars(k.as_str());
        append_str(&mut p, ":\"");
        append_str(&mut p, v.as_str());
        append_str(&mut p, "\"");
        let s = string_from_chars(p.as_slice());
        let ghost p0 = strings_view(parts@);
        parts.push(s);
        proof {
            assert(qs[i as int] == (k@, v@));
            assert(strings_view(parts@) =~= p0.push(s@));
            assert(qparts.take(i + 1) =~= qparts.take(i as int).push(qparts[i as int]));
        }
        i += 1;
    }
    assert(qparts.take(qualifiers@.len() as int) =~= qparts);
    assert(head + qparts =~= (if trim(free_text@).len() > 0 { seq![trim(free_text@)] + qparts } else { qparts }));
    let v = join_strings(&parts, " ");
    string_from_chars(v.as_slice())
}

/// A search result item, with every field as the response gave it (absent when missing).
#[derive(Debug, Clone)]
pub struct RawPackageItem {
    pub owner_username: Option<String>,
    pub name: Option<String>,
    pub kind: Option<String>,
    pub tier: Option<String>,
    pub description: Option<String>,
    pub version_name: Option<String>,
    pub released_at: Option<String>,
}

/// A package: owner, name, type, tier, description, version, release time, installed
/// version.
pub type PackageModel = (Seq<char>, Seq<char>, Seq<char>, Seq<char>, Seq<char>, Seq<char>, Option<Seq<char>>, Option<Seq<char>>);

pub open spec fn package_model(p: RegistryPackage) -> PackageModel {
    (p.owner@, p.name@, p.kind@, p.tier@, p.description@, p.version@, opt_view(p.released_at), opt_view(p.installed_version))
}

pub open spec fn opt_view(o: Option<String>) -> Option<Seq<char>> {
    crate::matching::opt_view(o)
}

pub open spec fn or_text(o: Option<String>, d: Seq<char>) -> Seq<char> {
    match o {
        Some(t) => t@,
        None => d,
    }
}

/// The package of an item: owner, name and version are required; the type defaults to
/// `library` and the tier and description to empty text; the installed version is left
/// for the caller.
pub open spec fn item_package(item: RawPackageItem) -> Option<PackageModel> {
    match (item.owner_username, item.name, item.version_name) {
        (Some(o), Some(n), Some(v)) => Some((
            o@,
            n@,
            or_text(item.kind, "library"@),
            or_text(item.tier, Seq::empty()),
            or_text(item.description, Seq::empty()),
            v@,
            opt_view(item.released_at),
            None,
        )),
        _ => None,
    }
}

/// The packages of the items that carry every required field, in order.
pub open spec fn page_items_spec(items: Seq<RawPackageItem>) -> Seq<PackageModel>
    decreases items.len(),
{
    if items.len() == 0 {
        Seq::empty()
    } else {
        match item_package(items.last()) {
            Some(p) => page_items_spec(items.drop_last()).push(p),
            None => page_items_spec(items.drop_last()),
        }
    }
}

pub fn package_from_item(item: RawPackageItem) -> (r: Option<RegistryPackage>)
    ensures
        match r {
            Some(p) => item_package(item) == Some(package_model(p)),
            None => item_package(item) is None,
        },
{
    let RawPackageItem { owner_username, name, kind, tier, description, version_name, released_at } = item;
    match (owner_username, name, version_name) {
        (Some(owner), Some(name), Some(version)) => Some(RegistryPackage {
            owner,
            name,
            kind: match kind {
                Some(t) => t,
                None => crate::text::str_to_string("library"),
            },
            tier: match tier {
                Some(t) => t,
                None => string_from_chars(&[]),
            },
            description: match description {
                Some(t) => t,
                None => string_from_chars(&[]),
            },
            version,
            released_at,
            installed_version: None,
        }),
        _ => None,
    }
}

/// The page of a search response: its items that carry every required field, in order.
pub fn page_from_items(items: Vec<RawPackageItem>, page: u32, total: u32, limit: u32) -> (r: PackagePage)
    ensures
        r.page == page && r.total == total && r.limit == limit,
        r.items@.map_values(|p: RegistryPackage| package_model(p)) == page_items_spec(items@),
{
    let mut out: Vec<RegistryPackage> = Vec::new();
    let mut i: usize = 0;
    while i < items.len()
        invariant
            i <= items@.len(),
            out@.map_values(|p: RegistryPackage| package_model(p)) == page_items_spec(items@.take(i as int)),
        decreases items@.len() - i,
    {
        let item = items[i].clone_item();
        proof {
            assert(items@.take(i + 1).drop_last() =~= items@.take(i as int));
            assert(items@.take(i + 1).last() == items@[i as int]);
        }
        let ghost o0 = out@.map_values(|p: RegistryPackage| package_model(p));
        match package_from_item(item) {
            Some(p) => {
                out.push(p);
                assert(out@.map_values(|p: RegistryPackage| package_model(p)) =~= o0.push(package_model(p)));
            },
            None => {},
        }
        i += 1;
    }
    assert(items@.take(items@.len() as int) =~= items@);
    PackagePage { items: out, page, total, limit }
}

fn copy_opt(o: &Option<String>) -> (r: Option<String>)
    ensures
        r == *o,
{
    match o {
        Some(s) => Some(s.clone()),
        None => None,
    }
}

impl RawPackageItem {
    /// A field-by-field copy.
    pub fn clone_item(&self) -> (r: RawPackageItem)
        ensures
            r == *self,
    {
        RawPackageItem {
            owner_username: copy_opt(&self.owner_username),
            name: copy_opt(&self.name),
            kind: copy_opt(&self.kind),
            tier: copy_opt(&self.tier),
            description: copy_opt(&self.description),
            version_name: copy_opt(&self.version_name),
            released_at: copy_opt(&self.released_at),
        }
    }
}

} // verus!
