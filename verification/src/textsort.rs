//! Sorting strings in `String`'s own order: lexicographic by character, which for UTF-8
//! text is the same as byte order.
use crate::text::{str_chars, strings_view};
use vstd::prelude::*;
use vstd::relations::{sorted_by, total_ordering};

verus! {

/// `a <= b` in lexicographic character order.
pub open spec fn lex_le(a: Seq<char>, b: Seq<char>) -> bool
    decreases a.len(),
{
    if a.len() == 0 {
        true
    } else if b.len() == 0 {
        false
    } else if a[0] != b[0] {
        a[0] < b[0]
    } else {
        lex_le(a.drop_first(), b.drop_first())
    }
}

pub open spec fn lex_leq() -> spec_fn(Seq<char>, Seq<char>) -> bool {
    |a: Seq<char>, b: Seq<char>| lex_le(a, b)
}

proof fn lemma_lex_refl(a: Seq<char>)
    ensures
        lex_le(a, a),
    decreases a.len(),
{
    if a.len() > 0 {
        lemma_lex_refl(a.drop_first());
    }
}

pub(crate) proof fn lemma_lex_antisym(a: Seq<char>, b: Seq<char>)
    requires
        lex_le(a, b),
        lex_le(b, a),
    ensures
        a == b,
    decreases a.len(),
{
    if a.len() > 0 && b.len() > 0 {
        lemma_lex_antisym(a.drop_first(), b.drop_first());
        assert(a =~= seq![a[0]] + a.drop_first());
        assert(b =~= seq![b[0]] + b.drop_first());
    } else {
        assert(a =~= b);
    }
}

pub(crate) proof fn lemma_lex_trans(a: Seq<char>, b: Seq<char>, c: Seq<char>)
    requires
        lex_le(a, b),
        lex_le(b, c),
    ensures
        lex_le(a, c),
    decreases a.len(),
{
    if a.len() > 0 && b.len() > 0 && c.len() > 0 && a[0] == b[0] && b[0] == c[0] {
        lemma_lex_trans(a.drop_first(), b.drop_first(), c.drop_first());
    }
}

pub(crate) proof fn lemma_lex_total(a: Seq<char>, b: Seq<char>)
    ensures
        lex_le(a, b) || lex_le(b, a),
    decreases a.len(),
{
    if a.len() > 0 && b.len() > 0 && a[0] == b[0] {
        lemma_lex_total(a.drop_first(), b.drop_first());
    }
}

pub proof fn lemma_lex_total_ordering()
    ensures
        total_ordering(lex_leq()),
{
    assert forall|x: Seq<char>| #[trigger] lex_leq()(x, x) by {
        lemma_lex_refl(x);
    }
    assert forall|x: Seq<char>, y: Seq<char>| #[trigger] lex_leq()(x, y) && #[trigger] lex_leq()(y, x) implies x == y by {
        lemma_lex_antisym(x, y);
    }
    assert forall|x: Seq<char>, y: Seq<char>, z: Seq<char>| #[trigger] lex_leq()(x, y) && #[trigger] lex_leq()(y, z) implies lex_leq()(x, z) by {
        lemma_lex_trans(x, y, z);
    }
    assert forall|x: Seq<char>, y: Seq<char>| #[trigger] lex_leq()(x, y) || #[trigger] lex_leq()(y, x) by {
        lemma_lex_total(x, y);
    }
}

pub(crate) fn lex_le_exec(a: &[char], b: &[char]) -> (r: bool)
    ensures
        r == lex_le(a@, b@),
{
    let mut i: usize = 0;
    assert(a@.skip(0) =~= a@);
    assert(b@.skip(0) =~= b@);
    while i < a.len() && i < b.len() && a[i] == b[i]
        invariant
            i <= a@.len(),
            i <= b@.len(),
            lex_le(a@, b@) == lex_le(a@.skip(i as int), b@.skip(i as int)),
        decreases a@.len() - i,
    {
        proof {
            assert(a@.skip(i as int).drop_first() =~= a@.skip(i + 1));
            assert(b@.skip(i as int).drop_first() =~= b@.skip(i + 1));
            assert(a@.skip(i as int)[0] == a@[i as int]);
            assert(b@.skip(i as int)[0] == b@[i as int]);
        }
        i += 1;
    }
    if i == a.len() {
        return true;
    }
    if i == b.len() {
        return false;
    }
    proof {
        assert(a@.skip(i as int)[0] == a@[i as int]);
        assert(b@.skip(i as int)[0] == b@[i as int]);
    }
    a[i] < b[i]
}

/// The strings sorted in `String` order (a sorted permutation of them).
pub fn sort_strings(v: &Vec<String>) -> (r: Vec<String>)
    ensures
        strings_view(r@) == strings_view(v@).sort_by(lex_leq()),
{
    let ghost sv = strings_view(v@);
    let mut out: Vec<String> = Vec::new();
    let mut i: usize = 0;
    assert(sv.take(0) =~= Seq::<Seq<char>>::empty());
    assert(strings_view(out@) =~= Seq::<Seq<char>>::empty());
    while i < v.len()
        invariant
            i <= v@.len(),
            sv == strings_view(v@),
            forall|p: int, q: int| 0 <= p < q < out@.len() ==> lex_le(#[trigger] out@[p]@, #[trigger] out@[q]@),
            strings_view(out@).to_multiset() == sv.take(i as int).to_multiset(),
        decreases v@.len() - i,
    {
        let x = v[i].clone();
        let xc = str_chars(x.as_str());
        let mut j: usize = 0;
        while j < out.len()
            invariant
                j <= out@.len(),
                xc@ == x@,
                forall|k: int| 0 <= k < j ==> lex_le((#[trigger] out@[k])@, x@),
            ensures
                j <= out@.len(),
                forall|k: int| 0 <= k < j ==> lex_le((#[trigger] out@[k])@, x@),
                j < out@.len() ==> !lex_le(out@[j as int]@, x@),
            decreases out@.len() - j,
        {
            let oc = str_chars(out[j].as_str());
            if !lex_le_exec(oc.as_slice(), xc.as_slice()) {
                break;
            }
            j += 1;
        }
        proof {
            if j < out@.len() {
                lemma_lex_total(out@[j as int]@, x@);
            }
        }
        let ghost before = out@;
        out.insert(j, x);
        proof {
            assert forall|p: int, q: int| 0 <= p < q < out@.len() implies lex_le(#[trigger] out@[p]@, #[trigger] out@[q]@) by {
                if q < j {
                    assert(out@[p] == before[p] && out@[q] == before[q]);
                    assert(lex_le(before[p]@, before[q]@));
                } else if q == j {
                    assert(out@[p] == before[p] && out@[q] == x);
                    assert(lex_le(before[p]@, x@));
                } else if p < j {
                    assert(out@[p] == before[p] && out@[q] == before[q - 1]);
                    assert(lex_le(before[p]@, before[q - 1]@));
                } else if p == j {
                    assert(out@[p] == x && out@[q] == before[q - 1]);
                    assert(lex_le(x@, before[j as int]@));
                    if q - 1 > j {
                        assert(lex_le(before[j as int]@, before[q - 1]@));
                        lemma_lex_trans(x@, before[j as int]@, before[q - 1]@);
                    }
                } else {
                    assert(out@[p] == before[p - 1] && out@[q] == before[q - 1]);
                    assert(lex_le(before[p - 1]@, before[q - 1]@));
                }
            }
            assert(strings_view(out@) =~= strings_view(before).insert(j as int, x@));
            vstd::seq_lib::to_multiset_insert(strings_view(before), j as int, x@);
            assert(sv.take(i + 1) =~= sv.take(i as int).push(sv[i as int]));
            vstd::seq_lib::to_multiset_build(sv.take(i as int), sv[i as int]);
        }
        i += 1;
    }
    proof {
        assert(sv.take(v@.len() as int) =~= sv);
        lemma_lex_total_ordering();
        sv.lemma_sort_by_ensures(lex_leq());
        assert(sorted_by(strings_view(out@), lex_leq())) by {
            assert forall|p: int, q: int| 0 <= p < q < strings_view(out@).len() implies #[trigger] lex_leq()(
                strings_view(out@)[p],
                strings_view(out@)[q],
            ) by {
                assert(lex_le(out@[p]@, out@[q]@));
            }
        }
        vstd::seq_lib::lemma_sorted_unique(strings_view(out@), sv.sort_by(lex_leq()), lex_leq());
    }
    out
}

} // verus!
