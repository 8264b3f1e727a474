//! The effective configuration as the library holds it: sections and options keyed by
//! name, each name once and in ascending order, a repeated name keeping its last value.
use crate::ini::document::{options_view, EffectiveSection};
use crate::error::AppError;
use crate::json::{json_parse_result, json_text, json_to_text, parse_json, JsonValue};
use crate::text::{append_str, str_chars, strings_view, string_from_chars};
use crate::textsort::{lemma_lex_antisym, lemma_lex_total, lemma_lex_trans, lex_le, lex_le_exec};
use vstd::prelude::*;

verus! {

/// Keys strictly ascending.
pub open spec fn keys_ascending<V>(r: Seq<(String, V)>) -> bool {
    forall|p: int, q: int|
        0 <= p < q < r.len() ==> lex_le((#[trigger] r[p]).0@, (#[trigger] r[q]).0@) && r[p].0@ != r[q].0@
}

/// `pairs[j]` is the last pair with its key.
pub open spec fn last_of_key<V>(pairs: Seq<(String, V)>, j: int) -> bool {
    0 <= j < pairs.len() && forall|m: int| j < m < pairs.len() ==> (#[trigger] pairs[m]).0@ != pairs[j].0@
}

/// The index of the last pair whose key is `k`, or -1.
pub open spec fn last_index<V>(pairs: Seq<(String, V)>, k: Seq<char>) -> int
    decreases pairs.len(),
{
    if pairs.len() == 0 {
        -1
    } else if pairs.last().0@ == k {
        pairs.len() - 1
    } else {
        last_index(pairs.drop_last(), k)
    }
}

proof fn lemma_last_index<V>(pairs: Seq<(String, V)>, j: int)
    requires
        last_of_key(pairs, j),
    ensures
        last_index(pairs, pairs[j].0@) == j,
    decreases pairs.len(),
{
    if j < pairs.len() - 1 {
        let t = pairs.drop_last();
        assert(pairs.last() == pairs[pairs.len() - 1]);
        assert forall|m: int| j < m < t.len() implies (#[trigger] t[m]).0@ != t[j].0@ by {
            assert(t[m] == pairs[m]);
        }
        lemma_last_index(t, j);
        assert(t[j] == pairs[j]);
    }
}

/// Each entry of `r` is the last pair of its key in `pairs`.
pub open spec fn entries_are_last<V>(pairs: Seq<(String, V)>, r: Seq<(String, V)>) -> bool {
    forall|i: int|
        0 <= i < r.len() ==> last_index(pairs, (#[trigger] r[i]).0@) >= 0 && pairs[last_index(pairs, r[i].0@)] == r[i]
}

/// Every key of `pairs` is a key of `r`.
pub open spec fn keys_all_present<V>(pairs: Seq<(String, V)>, r: Seq<(String, V)>) -> bool {
    forall|j: int| 0 <= j < pairs.len() ==> #[trigger] keys_of(r).contains(pairs[j].0@)
}

pub open spec fn keys_of<V>(v: Seq<(String, V)>) -> Seq<Seq<char>> {
    v.map_values(|p: (String, V)| p.0@)
}

/// `r` is `pairs` as a map in which a later pair replaces an earlier one of the same key:
/// keys ascending, each entry the last pair of its key, and every key present.
pub open spec fn last_wins<V>(pairs: Seq<(String, V)>, r: Seq<(String, V)>) -> bool {
    &&& keys_ascending(r)
    &&& entries_are_last(pairs, r)
    &&& keys_all_present(pairs, r)
}

/// Where `key` goes in the ascending keys of `out`, and whether it is there already.
fn key_position<V>(out: &Vec<(String, V)>, key: &String) -> (r: (usize, bool))
    requires
        keys_ascending(out@),
    ensures
        r.0 <= out@.len(),
        forall|k: int| 0 <= k < r.0 ==> lex_le((#[trigger] out@[k]).0@, key@) && out@[k].0@ != key@,
        r.0 < out@.len() ==> lex_le(key@, out@[r.0 as int].0@),
        r.1 == (r.0 < out@.len() && out@[r.0 as int].0@ == key@),
        !r.1 ==> forall|i: int| 0 <= i < out@.len() ==> (#[trigger] out@[i]).0@ != key@,
{
    let xc = str_chars(key.as_str());
    let mut j: usize = 0;
    while j < out.len()
        invariant
            j <= out@.len(),
            xc@ == key@,
            forall|k: int| 0 <= k < j ==> !lex_le(key@, (#[trigger] out@[k]).0@),
        ensures
            j <= out@.len(),
            forall|k: int| 0 <= k < j ==> !lex_le(key@, (#[trigger] out@[k]).0@),
            j < out@.len() ==> lex_le(key@, out@[j as int].0@),
        decreases out@.len() - j,
    {
        let oc = str_chars(out[j].0.as_str());
        if lex_le_exec(xc.as_slice(), oc.as_slice()) {
            break;
        }
        j += 1;
    }
    assert forall|k: int| 0 <= k < j implies lex_le((#[trigger] out@[k]).0@, key@) && out@[k].0@ != key@ by {
        lemma_lex_total(out@[k].0@, key@);
        if out@[k].0@ == key@ {
            lemma_lex_total(key@, key@);
        }
    }
    let present = if j < out.len() {
        let oc = str_chars(out[j].0.as_str());
        crate::text::chars_eq(oc.as_slice(), xc.as_slice())
    } else {
        false
    };
    proof {
        if !present {
            assert forall|i: int| 0 <= i < out@.len() implies (#[trigger] out@[i]).0@ != key@ by {
                if i > j {
                    assert(lex_le(out@[j as int].0@, out@[i].0@));
                    if out@[i].0@ == key@ {
                        lemma_lex_antisym(key@, out@[j as int].0@);
                    }
                }
            }
        }
    }
    (j, present)
}

proof fn lemma_insert_keeps_ascending<V>(before: Seq<(String, V)>, j: int, x: (String, V))
    requires
        keys_ascending(before),
        0 <= j <= before.len(),
        forall|k: int| 0 <= k < j ==> lex_le((#[trigger] before[k]).0@, x.0@) && before[k].0@ != x.0@,
        j < before.len() ==> lex_le(x.0@, before[j].0@) && before[j].0@ != x.0@,
    ensures
        keys_ascending(before.insert(j, x)),
{
    let out = before.insert(j, x);
    assert forall|p: int, q: int| 0 <= p < q < out.len() implies lex_le((#[trigger] out[p]).0@, (#[trigger] out[q]).0@)
        && out[p].0@ != out[q].0@ by {
        if q < j {
            assert(out[p] == before[p] && out[q] == before[q]);
        } else if q == j {
            assert(out[p] == before[p] && out[q] == x);
        } else if p < j {
            assert(out[p] == before[p] && out[q] == before[q - 1]);
        } else if p == j {
            assert(out[p] == x && out[q] == before[q - 1]);
            if q - 1 > j {
                lemma_lex_trans(x.0@, before[j].0@, before[q - 1].0@);
                if x.0@ == before[q - 1].0@ {
                    lemma_lex_antisym(x.0@, before[j].0@);
                }
            }
        } else {
            assert(out[p] == before[p - 1] && out[q] == before[q - 1]);
        }
    }
}

/// The pairs as a map, a later pair replacing an earlier one of the same key.
pub fn last_wins_map<V>(pairs: Vec<(String, V)>) -> (r: Vec<(String, V)>)
    ensures
        last_wins(pairs@, r@),
{
    let ghost all = pairs@;
    let mut rest = pairs;
    let mut out: Vec<(String, V)> = Vec::new();
    let ghost mut src: Seq<int> = Seq::empty();
    while rest.len() > 0
        invariant
            rest@ == all.take(rest@.len() as int),
            rest@.len() <= all.len(),
            keys_ascending(out@),
            src.len() == out@.len(),
            forall|i: int|
                0 <= i < out@.len() ==> rest@.len() <= #[trigger] src[i] < all.len() && last_of_key(all, src[i])
                    && all[src[i]] == out@[i],
            forall|k: int| rest@.len() <= k < all.len() ==> keys_of(out@).contains(#[trigger] all[k].0@),
        decreases rest@.len(),
    {
        let ghost rest_before = rest@;
        let x = rest.pop().unwrap();
        let ghost m = rest@.len() as int;
        proof {
            assert(rest_before =~= rest@.push(x));
            assert(rest@ =~= all.take(m));
            assert(all[m] == rest_before[m]);
            assert(rest_before.len() == m + 1);
        }
        let (j, present) = key_position(&out, &x.0);
        let ghost before = out@;
        proof {
            assert(keys_of(before).len() == before.len());
        }
        if present {
            proof {
                assert(keys_of(out@)[j as int] == all[m].0@);
                assert forall|k: int| m <= k < all.len() implies keys_of(out@).contains(#[trigger] all[k].0@) by {
                    if k == m {
                        assert(keys_of(out@)[j as int] == all[k].0@);
                    }
                }
            }
        } else {
            proof {
                assert forall|k: int| m < k < all.len() implies (#[trigger] all[k]).0@ != all[m].0@ by {
                    assert(keys_of(before).contains(all[k].0@));
                    let i = choose|i: int| 0 <= i < keys_of(before).len() && keys_of(before)[i] == all[k].0@;
                    assert(keys_of(before)[i] == before[i].0@);
                }
                assert(last_of_key(all, m));
            }
            out.insert(j, x);
            proof {
                lemma_insert_keeps_ascending(before, j as int, x);
                let ghost src2 = src.insert(j as int, m);
                assert forall|i: int| 0 <= i < out@.len() implies m <= #[trigger] src2[i] < all.len() && last_of_key(all, src2[i])
                    && all[src2[i]] == out@[i] by {
                    if i < j {
                        assert(src2[i] == src[i] && out@[i] == before[i]);
                    } else if i == j {
                        assert(src2[i] == m && out@[i] == x);
                    } else {
                        assert(src2[i] == src[i - 1] && out@[i] == before[i - 1]);
                    }
                }
                assert(keys_of(out@) =~= keys_of(before).insert(j as int, x.0@));
                assert forall|k: int| m <= k < all.len() implies keys_of(out@).contains(#[trigger] all[k].0@) by {
                    if k == m {
                        assert(keys_of(out@)[j as int] == all[k].0@);
                    } else {
                        assert(keys_of(before).contains(all[k].0@));
                        let i = choose|i: int| 0 <= i < keys_of(before).len() && keys_of(before)[i] == all[k].0@;
                        if i < j {
                            assert(keys_of(out@)[i] == all[k].0@);
                        } else {
                            assert(keys_of(out@)[i + 1] == all[k].0@);
                        }
                    }
                }
                src = src2;
            }
        }
    }
    proof {
        assert(pairs@ == all);
        assert forall|i: int| 0 <= i < out@.len() implies last_index(all, (#[trigger] out@[i]).0@) >= 0 && all[last_index(
            all,
            out@[i].0@,
        )] == out@[i] by {
            lemma_last_index(all, src[i]);
        }
    }
    out
}


pub open spec fn section_names(v: Seq<EffectiveSection>) -> Seq<Seq<char>> {
    v.map_values(|s: EffectiveSection| s.name@)
}

/// What [`effective_config`] gives for `sections`.
pub open spec fn effective_ok(sections: Seq<(String, Vec<(String, Vec<String>)>)>, r: Seq<EffectiveSection>) -> bool {
    &&& forall|p: int, q: int|
        0 <= p < q < r.len() ==> lex_le((#[trigger] r[p]).name@, (#[trigger] r[q]).name@) && r[p].name@ != r[q].name@
    &&& forall|i: int| 0 <= i < r.len() ==> (#[trigger] r[i]).wf()
    &&& forall|i: int|
        0 <= i < r.len() ==> last_index(sections, (#[trigger] r[i]).name@) >= 0 && last_wins(
            sections[last_index(sections, r[i].name@)].1@,
            r[i].options@,
        )
    &&& forall|j: int| 0 <= j < sections.len() ==> #[trigger] section_names(r).contains(sections[j].0@)
}

/// The effective configuration from `pio project config`'s sections, each a name and its
/// `(option, values)` pairs, in the order listed: sections and options become maps in
/// which a later name replaces an earlier one, so the result lists each section once, in
/// ascending name order, each with its options once, in ascending order, the values of an
/// option being those of its last listing within the section's last listing.
pub fn effective_config(sections: Vec<(String, Vec<(String, Vec<String>)>)>) -> (r: Vec<EffectiveSection>)
    ensures
        forall|p: int, q: int|
            0 <= p < q < r@.len() ==> lex_le((#[trigger] r@[p]).name@, (#[trigger] r@[q]).name@) && r@[p].name@
                != r@[q].name@,
        forall|i: int| 0 <= i < r@.len() ==> (#[trigger] r@[i]).wf(),
        forall|i: int|
            0 <= i < r@.len() ==> last_index(sections@, (#[trigger] r@[i]).name@) >= 0 && last_wins(
                sections@[last_index(sections@, r@[i].name@)].1@,
                r@[i].options@,
            ),
        forall|j: int| 0 <= j < sections@.len() ==> #[trigger] section_names(r@).contains(sections@[j].0@),
{
    let ghost orig = sections@;
    let mut rest = last_wins_map(sections);
    let ghost secs = rest@;
    let mut out: Vec<EffectiveSection> = Vec::new();
    while rest.len() > 0
        invariant
            last_wins(orig, secs),
            out@.len() + rest@.len() == secs.len(),
            rest@ == secs.skip(out@.len() as int),
            forall|i: int|
                0 <= i < out@.len() ==> (#[trigger] out@[i]).name@ == secs[i].0@ && last_wins(secs[i].1@, out@[i].options@),
        decreases rest@.len(),
    {
        let ghost k = out@.len() as int;
        let (name, options) = rest.remove(0);
        proof {
            assert(secs[k] == (name, options));
            assert(rest@ =~= secs.skip(k + 1));
        }
        let sorted = last_wins_map(options);
        out.push(EffectiveSection { name, options: sorted });
    }
    proof {
        assert(out@.len() == secs.len());
        assert forall|p: int, q: int| 0 <= p < q < out@.len() implies lex_le((#[trigger] out@[p]).name@, (#[trigger] out@[q]).name@)
            && out@[p].name@ != out@[q].name@ by {
            assert(lex_le(secs[p].0@, secs[q].0@));
        }
        assert forall|i: int| 0 <= i < out@.len() implies (#[trigger] out@[i]).wf() by {
            let o = out@[i].options@;
            assert forall|p: int, q: int| 0 <= p < q < options_view(o).len() implies lex_le(
                (#[trigger] options_view(o)[p]).0,
                (#[trigger] options_view(o)[q]).0,
            ) && options_view(o)[p].0 != options_view(o)[q].0 by {
                assert(options_view(o)[p].0 == o[p].0@);
                assert(options_view(o)[q].0 == o[q].0@);
            }
        }
        assert forall|i: int| 0 <= i < out@.len() implies last_index(orig, (#[trigger] out@[i]).name@) >= 0 && last_wins(
            orig[last_index(orig, out@[i].name@)].1@,
            out@[i].options@,
        ) by {
            assert(last_index(orig, secs[i].0@) >= 0 && orig[last_index(orig, secs[i].0@)] == secs[i]);
        }
        assert forall|j: int| 0 <= j < orig.len() implies #[trigger] section_names(out@).contains(orig[j].0@) by {
            assert(keys_of(secs).contains(orig[j].0@));
            let i = choose|i: int| 0 <= i < keys_of(secs).len() && keys_of(secs)[i] == orig[j].0@;
            assert(section_names(out@)[i] == out@[i].name@);
        }
    }
    out
}

// ---------------------------------------------------------------------------------------
// Reading `pio project config --json-output`
// ---------------------------------------------------------------------------------------

/// A JSON value as one text: a string as it is, `null` as empty, anything else as JSON.
pub open spec fn scalar_text(x: JsonValue) -> Seq<char> {
    match x {
        JsonValue::Str(s) => s@,
        JsonValue::Null => Seq::empty(),
        _ => json_text(x),
    }
}

/// An option's value as texts: an array element by element, anything else as one text.
pub open spec fn value_texts(x: JsonValue) -> Seq<Seq<char>> {
    match x {
        JsonValue::Array(items) => items@.map_values(|e: JsonValue| scalar_text(e)),
        _ => seq![scalar_text(x)],
    }
}

/// `[name, value]`: the option's name and value texts; anything else is skipped.
pub open spec fn option_entry(e: JsonValue) -> Option<(Seq<char>, Seq<Seq<char>>)> {
    match e {
        JsonValue::Array(p) => if p@.len() >= 2 {
            match p@[0] {
                JsonValue::Str(n) => Some((n@, value_texts(p@[1]))),
                _ => None,
            }
        } else {
            None
        },
        _ => None,
    }
}

pub open spec fn option_entries(s: Seq<JsonValue>) -> Seq<(Seq<char>, Seq<Seq<char>>)>
    decreases s.len(),
{
    if s.len() == 0 {
        Seq::empty()
    } else {
        match option_entry(s.last()) {
            Some(o) => option_entries(s.drop_last()).push(o),
            None => option_entries(s.drop_last()),
        }
    }
}

/// `[name, [options...]]`: the section's name and options; anything else is skipped.
pub open spec fn section_entry(e: JsonValue) -> Option<(Seq<char>, Seq<(Seq<char>, Seq<Seq<char>>)>)> {
    match e {
        JsonValue::Array(p) => if p@.len() >= 2 {
            match (p@[0], p@[1]) {
                (JsonValue::Str(n), JsonValue::Array(opts)) => Some((n@, option_entries(opts@))),
                _ => None,
            }
        } else {
            None
        },
        _ => None,
    }
}

/// The well-shaped sections of the top-level array, in order.
pub open spec fn listed_spec(items: Seq<JsonValue>) -> Seq<(Seq<char>, Seq<(Seq<char>, Seq<Seq<char>>)>)>
    decreases items.len(),
{
    if items.len() == 0 {
        Seq::empty()
    } else {
        match section_entry(items.last()) {
            Some(sec) => listed_spec(items.drop_last()).push(sec),
            None => listed_spec(items.drop_last()),
        }
    }
}

pub open spec fn options_model(o: Seq<(String, Vec<String>)>) -> Seq<(Seq<char>, Seq<Seq<char>>)> {
    o.map_values(|p: (String, Vec<String>)| (p.0@, strings_view(p.1@)))
}

pub open spec fn listed_view(v: Seq<(String, Vec<(String, Vec<String>)>)>) -> Seq<(Seq<char>, Seq<(Seq<char>, Seq<Seq<char>>)>)> {
    v.map_values(|p: (String, Vec<(String, Vec<String>)>)| (p.0@, options_model(p.1@)))
}

fn scalar_text_exec(x: &JsonValue) -> (r: String)
    ensures
        r@ == scalar_text(*x),
{
    match x {
        JsonValue::Str(s) => s.clone(),
        JsonValue::Null => String::new(),
        _ => json_to_text(x),
    }
}

fn value_texts_exec(x: &JsonValue) -> (r: Vec<String>)
    ensures
        strings_view(r@) == value_texts(*x),
{
    let mut out: Vec<String> = Vec::new();
    match x {
        JsonValue::Array(items) => {
            let mut i: usize = 0;
            while i < items.len()
                invariant
                    i <= items@.len(),
                    *x == JsonValue::Array(*items),
                    strings_view(out@) == items@.take(i as int).map_values(|e: JsonValue| scalar_text(e)),
                decreases items@.len() - i,
            {
                let t = scalar_text_exec(&items[i]);
                let ghost before = strings_view(out@);
                out.push(t);
                proof {
                    assert(strings_view(out@) =~= before.push(t@));
                    assert(items@.take(i + 1).map_values(|e: JsonValue| scalar_text(e)) =~= items@.take(i as int).map_values(
                        |e: JsonValue| scalar_text(e),
                    ).push(scalar_text(items@[i as int])));
                }
                i += 1;
            }
            assert(items@.take(items@.len() as int) =~= items@);
        },
        _ => {
            let t = scalar_text_exec(x);
            out.push(t);
            assert(strings_view(out@) =~= seq![t@]);
        },
    }
    out
}

fn options_of(opts: &Vec<JsonValue>) -> (r: Vec<(String, Vec<String>)>)
    ensures
        options_model(r@) == option_entries(opts@),
{
    let mut out: Vec<(String, Vec<String>)> = Vec::new();
    let mut i: usize = 0;
    assert(opts@.take(0) =~= Seq::<JsonValue>::empty());
    assert(options_model(out@) =~= Seq::<(Seq<char>, Seq<Seq<char>>)>::empty());
    while i < opts.len()
        invariant
            i <= opts@.len(),
            options_model(out@) == option_entries(opts@.take(i as int)),
        decreases opts@.len() - i,
    {
        proof {
            assert(opts@.take(i + 1).drop_last() =~= opts@.take(i as int));
            assert(opts@.take(i + 1).last() == opts@[i as int]);
        }
        match &opts[i] {
            JsonValue::Array(p) => {
                if p.len() >= 2 {
                    match &p[0] {
                        JsonValue::Str(n) => {
                            let vals = value_texts_exec(&p[1]);
                            let ghost before = options_model(out@);
                            out.push((n.clone(), vals));
                            assert(options_model(out@) =~= before.push((n@, strings_view(vals@))));
                        },
                        _ => {},
                    }
                }
            },
            _ => {},
        }
        i += 1;
    }
    assert(opts@.take(opts@.len() as int) =~= opts@);
    out
}

/// The well-shaped sections of the top-level array of `pio project config
/// --json-output`, in order: `[name, [[option, value], ...]]`, each value as texts.
pub fn listed_sections(items: &[JsonValue]) -> (r: Vec<(String, Vec<(String, Vec<String>)>)>)
    ensures
        listed_view(r@) == listed_spec(items@),
{
    let mut out: Vec<(String, Vec<(String, Vec<String>)>)> = Vec::new();
    let mut i: usize = 0;
    assert(items@.take(0) =~= Seq::<JsonValue>::empty());
    assert(listed_view(out@) =~= Seq::<(Seq<char>, Seq<(Seq<char>, Seq<Seq<char>>)>)>::empty());
    while i < items.len()
        invariant
            i <= items@.len(),
            listed_view(out@) == listed_spec(items@.take(i as int)),
        decreases items@.len() - i,
    {
        proof {
            assert(items@.take(i + 1).drop_last() =~= items@.take(i as int));
            assert(items@.take(i + 1).last() == items@[i as int]);
        }
        match &items[i] {
            JsonValue::Array(p) => {
                if p.len() >= 2 {
                    match (&p[0], &p[1]) {
                        (JsonValue::Str(n), JsonValue::Array(opts)) => {
                            let o = options_of(opts);
                            let ghost before = listed_view(out@);
                            out.push((n.clone(), o));
                            assert(listed_view(out@) =~= before.push((n@, options_model(o@))));
                        },
                        _ => {},
                    }
                }
            },
            _ => {},
        }
        i += 1;
    }
    assert(items@.take(items@.len() as int) =~= items@);
    out
}

pub open spec fn parse_error_message(m: Seq<char>) -> Seq<char> {
    "parsing `pio project config --json-output`: "@ + m
}

pub open spec fn not_array_message() -> Seq<char> {
    "`pio project config --json-output` was not a JSON array"@
}

/// `pio project config --json-output`, `[[section, [[option, value], ...]], ...]`: text
/// that is not JSON, or not an array, is an error; otherwise the well-shaped sections
/// ([`listed_spec`]) become the effective configuration ([`effective_config`]).
pub fn parse_effective_config(json: &str) -> (r: Result<Vec<EffectiveSection>, AppError>)
    ensures
        match json_parse_result(json@) {
            Err(m) => r matches Err(AppError::Io { message }) && message@ == parse_error_message(m),
            Ok(JsonValue::Array(items)) => r matches Ok(cfg) && exists|listed: Seq<(String, Vec<(String, Vec<String>)>)>|
                #![trigger listed_view(listed)]
                listed_view(listed) == listed_spec(items@) && effective_ok(listed, cfg@),
            Ok(_) => r matches Err(AppError::Io { message }) && message@ == not_array_message(),
        },
{
    match parse_json(json) {
        Err(m) => {
            let mut msg = str_chars("parsing `pio project config --json-output`: ");
            crate::text::append_str(&mut msg, m.as_str());
            Err(AppError::Io { message: string_from_chars(msg.as_slice()) })
        },
        Ok(JsonValue::Array(items)) => {
            let listed = listed_sections(items.as_slice());
            let ghost lv = listed@;
            let cfg = effective_config(listed);
            assert(listed_view(lv) == listed_spec(items@) && effective_ok(lv, cfg@));
            Ok(cfg)
        },
        Ok(_) => Err(AppError::Io { message: crate::text::str_to_string("`pio project config --json-output` was not a JSON array") }),
    }
}
} // verus!
