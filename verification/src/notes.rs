//! Notes to the financial records: each accounting treatment with the
//! transactions it was applied to, and the years with manual corrections.
use vstd::prelude::*;

use crate::date::{iso_text, Date};
use crate::numfmt::{signed_decimal, signed_decimal_chars};
use crate::sorted_texts::{
    insert_text_sorted, lemma_is_sorted_listing, sorted_listing, texts_sorted,
};
use crate::text::{
    chars_lt, chars_to_string, join, join_chars, lemma_text_lt_total, lemma_text_lt_trans,
    push_all, strings_view, text_lt, to_chars, trim, trim_chars,
};

verus! {

/// The first parts of the pairs.
pub open spec fn firsts(pairs: Seq<(Seq<char>, Seq<char>)>) -> Set<Seq<char>> {
    Set::new(|a: Seq<char>| exists|i: int| 0 <= i < pairs.len() && #[trigger] pairs[i].0 == a)
}

/// The second parts of the pairs whose first part is `a`.
pub open spec fn seconds_of(pairs: Seq<(Seq<char>, Seq<char>)>, a: Seq<char>) -> Set<Seq<char>> {
    Set::new(
        |l: Seq<char>| exists|i: int| 0 <= i < pairs.len() && #[trigger] pairs[i] == (a, l),
    )
}

/// The pairs grouped by their first part: each first part once, in order,
/// with its second parts, each once and in order, joined with `, `.
pub open spec fn grouped(pairs: Seq<(Seq<char>, Seq<char>)>) -> Seq<(Seq<char>, Seq<char>)> {
    let keys = sorted_listing(firsts(pairs));
    Seq::new(keys.len(), |k: int| (keys[k], join(sorted_listing(seconds_of(pairs, keys[k])), ", "@)))
}

pub open spec fn pairs_of(v: Seq<(String, String)>) -> Seq<(Seq<char>, Seq<char>)> {
    Seq::new(v.len(), |k: int| (v[k].0@, v[k].1@))
}

/// The group state: sorted keys, and for each key its sorted values.
spec fn groups_ok(
    keys: Seq<Seq<char>>,
    values: Seq<Seq<Seq<char>>>,
    pairs: Seq<(Seq<char>, Seq<char>)>,
) -> bool {
    &&& texts_sorted(keys)
    &&& keys.len() == values.len()
    &&& keys.to_set() == firsts(pairs)
    &&& forall|k: int|
        0 <= k < keys.len() ==> texts_sorted(#[trigger] values[k]) && values[k].to_set()
            == seconds_of(pairs, keys[k])
}

spec fn values_view(v: Seq<Vec<String>>) -> Seq<Seq<Seq<char>>> {
    Seq::new(v.len(), |k: int| strings_view(v[k]@))
}

fn join_comma(v: &Vec<String>) -> (r: String)
    ensures
        r@ == join(strings_view(v@), ", "@),
{
    let mut parts: Vec<Vec<char>> = Vec::new();
    let mut i: usize = 0;
    while i < v.len()
        invariant
            i <= v@.len(),
            parts@.len() == i,
            forall|k: int| 0 <= k < i ==> #[trigger] parts@[k]@ == v@[k]@,
        decreases v.len() - i,
    {
        parts.push(to_chars(v[i].as_str()));
        i = i + 1;
    }
    assert(Seq::new(parts@.len(), |k: int| parts@[k]@) =~= strings_view(v@));
    chars_to_string(&join_chars(&parts, &to_chars(", ")))
}

/// Each first part of the pairs once, sorted, with its second parts, each
/// once and sorted, joined with `, `: the treatments applied, each with
/// the transactions it was applied to.
pub fn group_pairs(pairs: &[(String, String)]) -> (r: Vec<(String, String)>)
    ensures
        pairs_of(r@) == grouped(pairs_of(pairs@)),
{
    let ghost pv = pairs_of(pairs@);
    let mut keys: Vec<String> = Vec::new();
    let mut values: Vec<Vec<String>> = Vec::new();
    let mut i: usize = 0;
    proof {
        assert(strings_view(keys@).to_set() =~= firsts(pv.take(0)));
    }
    while i < pairs.len()
        invariant
            i <= pairs@.len(),
            pv == pairs_of(pairs@),
            groups_ok(strings_view(keys@), values_view(values@), pv.take(i as int)),
        decreases pairs.len() - i,
    {
        let ghost before = pv.take(i as int);
        let ghost after = pv.take(i + 1);
        let ghost kb = strings_view(keys@);
        let ghost vb = values_view(values@);
        let ghost x = pv[i as int];
        proof {
            assert(after == before.push(x));
            assert(after[i as int] == x);
            assert forall|k: int| 0 <= k < before.len() implies after[k] == before[k] by {}
        }
        let a = pairs[i].0.clone();
        let l = pairs[i].1.clone();
        assert(x == (a@, l@));
        let av = to_chars(a.as_str());
        let mut p: usize = 0;
        while p < keys.len() && chars_lt(&to_chars(keys[p].as_str()), &av)
            invariant
                p <= keys@.len(),
                kb == strings_view(keys@),
                av@ == a@,
                forall|k: int| 0 <= k < p ==> text_lt(#[trigger] kb[k], a@),
            decreases keys.len() - p,
        {
            p = p + 1;
        }
        if p < keys.len() && keys[p] == a {
            assert(vb[p as int] == strings_view(values@[p as int]@));
            let mut group = values.remove(p);
            assert(strings_view(group@) == vb[p as int]);
            insert_text_sorted(&mut group, l);
            values.insert(p, group);
            proof {
                let va = values_view(values@);
                assert(strings_view(keys@) == kb);
                assert forall|k: int| 0 <= k < kb.len() implies texts_sorted(#[trigger] va[k]) && va[k].to_set()
                    == seconds_of(after, kb[k]) by {
                    if k == p {
                        assert(va[k].to_set() =~= seconds_of(after, kb[k])) by {
                            assert forall|y: Seq<char>| seconds_of(after, kb[k]).contains(y) implies va[k].to_set().contains(y) by {
                                let j = choose|j: int| 0 <= j < after.len() && #[trigger] after[j] == (kb[k], y);
                                if j < before.len() {
                                    assert(seconds_of(before, kb[k]).contains(y));
                                }
                            }
                            assert forall|y: Seq<char>| va[k].to_set().contains(y) implies seconds_of(after, kb[k]).contains(y) by {
                                if y == l@ {
                                    assert(after[i as int] == (kb[k], y));
                                } else {
                                    assert(seconds_of(before, kb[k]).contains(y));
                                    let j = choose|j: int| 0 <= j < before.len() && #[trigger] before[j] == (kb[k], y);
                                    assert(after[j] == (kb[k], y));
                                }
                            }
                        }
                    } else {
                        assert(va[k] == vb[k]);
                        assert(seconds_of(after, kb[k]) =~= seconds_of(before, kb[k])) by {
                            assert forall|y: Seq<char>| seconds_of(after, kb[k]).contains(y) implies seconds_of(before, kb[k]).contains(y) by {
                                let j = choose|j: int| 0 <= j < after.len() && #[trigger] after[j] == (kb[k], y);
                                if j == i {
                                    assert(kb[k] == a@);
                                    assert(kb[p as int] == a@);
                                    if k < p {
                                        assert(text_lt(kb[k], kb[p as int]));
                                    } else {
                                        assert(text_lt(kb[p as int], kb[k]));
                                    }
                                    crate::text::lemma_text_lt_irrefl(a@);
                                } else {
                                    assert(before[j] == (kb[k], y));
                                }
                            }
                            assert forall|y: Seq<char>| seconds_of(before, kb[k]).contains(y) implies seconds_of(after, kb[k]).contains(y) by {
                                let j = choose|j: int| 0 <= j < before.len() && #[trigger] before[j] == (kb[k], y);
                                assert(after[j] == (kb[k], y));
                            }
                        }
                    }
                }
                assert(kb.to_set() =~= firsts(after)) by {
                    assert forall|z: Seq<char>| firsts(after).contains(z) implies kb.to_set().contains(z) by {
                        let j = choose|j: int| 0 <= j < after.len() && #[trigger] after[j].0 == z;
                        if j == i {
                            assert(kb[p as int] == z);
                        } else {
                            assert(before[j].0 == z);
                            assert(firsts(before).contains(z));
                        }
                    }
                    assert forall|z: Seq<char>| kb.to_set().contains(z) implies firsts(after).contains(z) by {
                        assert(firsts(before).contains(z));
                        let j = choose|j: int| 0 <= j < before.len() && #[trigger] before[j].0 == z;
                        assert(after[j].0 == z);
                    }
                }
            }
        } else {
            proof {
                if p < kb.len() {
                    lemma_text_lt_total(kb[p as int], a@);
                }
                assert forall|k: int| p <= k < kb.len() implies text_lt(a@, #[trigger] kb[k]) by {
                    if k > p {
                        lemma_text_lt_trans(a@, kb[p as int], kb[k]);
                    }
                }
                assert forall|k: int| 0 <= k < kb.len() implies kb[k] != a@ by {
                    if k < p {
                        assert(text_lt(kb[k], a@));
                        crate::text::lemma_text_lt_irrefl(a@);
                    } else {
                        assert(text_lt(a@, kb[k]));
                        crate::text::lemma_text_lt_irrefl(a@);
                    }
                }
            }
            let mut group: Vec<String> = Vec::new();
            let ghost lv = l@;
            group.push(l);
            assert(strings_view(group@) =~= seq![lv]);
            keys.insert(p, a);
            values.insert(p, group);
            proof {
                let ka = strings_view(keys@);
                let va = values_view(values@);
                assert(ka =~= kb.insert(p as int, a@));
                assert(va =~= vb.insert(p as int, seq![l@]));
                assert forall|s: int, t: int| 0 <= s < t < ka.len() implies text_lt(#[trigger] ka[s], #[trigger] ka[t]) by {
                    if t < p {
                    } else if s < p && t == p {
                    } else if s < p {
                        lemma_text_lt_trans(kb[s], a@, kb[t - 1]);
                    } else if s == p {
                    } else {
                    }
                }
                assert forall|k: int| 0 <= k < ka.len() implies texts_sorted(#[trigger] va[k]) && va[k].to_set()
                    == seconds_of(after, ka[k]) by {
                    if k == p {
                        assert(seconds_of(before, a@) =~= Set::empty()) by {
                            assert forall|y: Seq<char>| !seconds_of(before, a@).contains(y) by {
                                if seconds_of(before, a@).contains(y) {
                                    let j = choose|j: int| 0 <= j < before.len() && #[trigger] before[j] == (a@, y);
                                    assert(before[j].0 == a@);
                                    assert(firsts(before).contains(a@));
                                    assert(kb.to_set().contains(a@));
                                }
                            }
                        }
                        assert(va[k].to_set() =~= seconds_of(after, ka[k])) by {
                            assert forall|y: Seq<char>| seconds_of(after, a@).contains(y) implies y == l@ by {
                                let j = choose|j: int| 0 <= j < after.len() && #[trigger] after[j] == (a@, y);
                                if j < before.len() {
                                    assert(before[j] == (a@, y));
                                    assert(seconds_of(before, a@).contains(y));
                                }
                            }
                            assert(after[i as int] == (a@, l@));
                            assert(seconds_of(after, a@).contains(l@));
                            assert(va[k] == seq![l@]);
                            assert forall|y: Seq<char>| va[k].to_set().contains(y) implies y == l@ by {
                                let j = choose|j: int| 0 <= j < va[k].len() && va[k][j] == y;
                            }
                            assert(va[k].to_set().contains(l@)) by {
                                assert(va[k][0] == l@);
                            }
                        }
                    } else {
                        let k0 = if k < p { k } else { k - 1 };
                        assert(ka[k] == kb[k0]);
                        assert(va[k] == vb[k0]);
                        assert(kb[k0] != a@);
                        assert(seconds_of(after, kb[k0]) =~= seconds_of(before, kb[k0])) by {
                            assert forall|y: Seq<char>| seconds_of(after, kb[k0]).contains(y) implies seconds_of(before, kb[k0]).contains(y) by {
                                let j = choose|j: int| 0 <= j < after.len() && #[trigger] after[j] == (kb[k0], y);
                                if j < before.len() {
                                    assert(before[j] == (kb[k0], y));
                                }
                            }
                            assert forall|y: Seq<char>| seconds_of(before, kb[k0]).contains(y) implies seconds_of(after, kb[k0]).contains(y) by {
                                let j = choose|j: int| 0 <= j < before.len() && #[trigger] before[j] == (kb[k0], y);
                                assert(after[j] == (kb[k0], y));
                            }
                        }
                    }
                }
                assert(ka.to_set() =~= firsts(after)) by {
                    assert forall|z: Seq<char>| firsts(after).contains(z) implies ka.to_set().contains(z) by {
                        let j = choose|j: int| 0 <= j < after.len() && #[trigger] after[j].0 == z;
                        if j == i {
                            assert(ka[p as int] == z);
                        } else {
                            assert(before[j].0 == z);
                            assert(firsts(before).contains(z));
                            assert(kb.to_set().contains(z));
                            let m = choose|m: int| 0 <= m < kb.len() && kb[m] == z;
                            if m < p {
                                assert(ka[m] == z);
                            } else {
                                assert(ka[m + 1] == z);
                            }
                        }
                    }
                    assert forall|z: Seq<char>| ka.to_set().contains(z) implies firsts(after).contains(z) by {
                        let m = choose|m: int| 0 <= m < ka.len() && ka[m] == z;
                        if m == p {
                            assert(after[i as int].0 == z);
                        } else {
                            let m0 = if m < p { m } else { m - 1 };
                            assert(kb[m0] == z);
                            assert(kb.to_set().contains(z));
                            assert(firsts(before).contains(z));
                            let j = choose|j: int| 0 <= j < before.len() && #[trigger] before[j].0 == z;
                            assert(after[j].0 == z);
                        }
                    }
                }
            }
        }
        i = i + 1;
    }
    proof {
        assert(pv.take(pv.len() as int) == pv);
    }
    let ghost kv = strings_view(keys@);
    let ghost vv = values_view(values@);
    proof {
        lemma_is_sorted_listing(kv);
    }
    let mut out: Vec<(String, String)> = Vec::new();
    let mut k: usize = 0;
    while k < keys.len()
        invariant
            k <= keys@.len(),
            kv == strings_view(keys@),
            vv == values_view(values@),
            groups_ok(kv, vv, pv),
            sorted_listing(firsts(pv)) == kv,
            out@.len() == k,
            forall|m: int|
                0 <= m < k ==> (#[trigger] out@[m]).0@ == kv[m] && out@[m].1@ == join(
                    sorted_listing(seconds_of(pv, kv[m])),
                    ", "@,
                ),
        decreases keys.len() - k,
    {
        proof {
            assert(texts_sorted(vv[k as int]));
            lemma_is_sorted_listing(vv[k as int]);
        }
        let joined = join_comma(&values[k]);
        out.push((keys[k].clone(), joined));
        k = k + 1;
    }
    assert(pairs_of(out@) =~= grouped(pv));
    out
}


// Years with manual corrections.
// ---------------------------------------------------------------------------

/// Years in strictly increasing order.
pub open spec fn years_sorted(s: Seq<i32>) -> bool {
    forall|i: int, j: int| 0 <= i < j < s.len() ==> #[trigger] s[i] < #[trigger] s[j]
}

/// The years of a finite set in increasing order.
pub open spec fn sorted_years(s: Set<i32>) -> Seq<i32> {
    choose|l: Seq<i32>| years_sorted(l) && l.to_set() == s
}

proof fn lemma_sorted_years_unique(a: Seq<i32>, b: Seq<i32>)
    requires
        years_sorted(a),
        years_sorted(b),
        a.to_set() == b.to_set(),
    ensures
        a == b,
    decreases a.len() + b.len(),
{
    if a.len() == 0 {
        if b.len() > 0 {
            assert(b.to_set().contains(b[0]));
        }
        assert(a =~= b);
    } else if b.len() == 0 {
        assert(a.to_set().contains(a[0]));
    } else {
        assert(b.to_set().contains(a[0]));
        assert(a.to_set().contains(b[0]));
        let i = choose|i: int| 0 <= i < b.len() && b[i] == a[0];
        let j = choose|j: int| 0 <= j < a.len() && a[j] == b[0];
        if i > 0 {
            assert(b[0] < b[i]);
            if j > 0 {
                assert(a[0] < a[j]);
            }
        }
        assert(a[0] == b[0]);
        let a1 = a.drop_first();
        let b1 = b.drop_first();
        assert forall|x: i32| a1.to_set().contains(x) implies b1.to_set().contains(x) by {
            let k = choose|k: int| 0 <= k < a1.len() && a1[k] == x;
            assert(a[k + 1] == x);
            assert(a.to_set().contains(x));
            let m = choose|m: int| 0 <= m < b.len() && b[m] == x;
            if m == 0 {
                assert(a[0] < a[k + 1]);
            } else {
                assert(b1[m - 1] == x);
            }
        }
        assert forall|x: i32| b1.to_set().contains(x) implies a1.to_set().contains(x) by {
            let k = choose|k: int| 0 <= k < b1.len() && b1[k] == x;
            assert(b[k + 1] == x);
            assert(b.to_set().contains(x));
            let m = choose|m: int| 0 <= m < a.len() && a[m] == x;
            if m == 0 {
                assert(b[0] < b[k + 1]);
            } else {
                assert(a1[m - 1] == x);
            }
        }
        assert(a1.to_set() =~= b1.to_set());
        lemma_sorted_years_unique(a1, b1);
        assert(a =~= seq![a[0]] + a1);
        assert(b =~= seq![b[0]] + b1);
    }
}

fn insert_year_sorted(v: &mut Vec<i32>, y: i32)
    requires
        years_sorted(old(v)@),
    ensures
        years_sorted(final(v)@),
        final(v)@.to_set() == old(v)@.to_set().insert(y),
{
    let ghost before = v@;
    let mut p: usize = 0;
    while p < v.len() && v[p] < y
        invariant
            p <= v@.len(),
            before == v@,
            years_sorted(before),
            forall|k: int| 0 <= k < p ==> #[trigger] before[k] < y,
        decreases v.len() - p,
    {
        p = p + 1;
    }
    if p < v.len() && v[p] == y {
        assert(before.to_set().insert(y) =~= before.to_set()) by {
            assert(before.contains(before[p as int]));
        }
        return ;
    }
    v.insert(p, y);
    proof {
        let after = v@;
        assert(after =~= before.insert(p as int, y));
        assert forall|i: int, j: int| 0 <= i < j < after.len() implies #[trigger] after[i] < #[trigger] after[j] by {
            if j < p {
            } else if i < p && j == p {
            } else if i < p {
                assert(after[j] == before[j - 1]);
            } else if i == p {
                assert(after[j] == before[j - 1]);
                assert(before[p as int] > y);
                if j - 1 > p {
                    assert(before[p as int] < before[j - 1]);
                }
            } else {
                assert(after[i] == before[i - 1]);
                assert(after[j] == before[j - 1]);
            }
        }
        assert(after.to_set() =~= before.to_set().insert(y)) by {
            assert forall|x: i32| after.to_set().contains(x) implies before.to_set().insert(y).contains(x) by {
                let k = choose|k: int| 0 <= k < after.len() && after[k] == x;
                if k < p {
                    assert(before.contains(before[k]));
                } else if k > p {
                    assert(before.contains(before[k - 1]));
                }
            }
            assert forall|x: i32| before.to_set().insert(y).contains(x) implies after.to_set().contains(x) by {
                if x == y {
                    assert(after[p as int] == y);
                } else {
                    let k = choose|k: int| 0 <= k < before.len() && before[k] == x;
                    if k < p {
                        assert(after[k] == x);
                    } else {
                        assert(after[k + 1] == x);
                    }
                }
            }
        }
    }
}

/// What stands for a correction in the notes: its description when it has
/// one that is not blank, else its date.
pub open spec fn correction_example(date: Date, description: Option<Seq<char>>) -> Seq<char> {
    match description {
        Some(d) => if trim(d).len() > 0 {
            d
        } else {
            iso_text(date)
        },
        None => iso_text(date),
    }
}

pub open spec fn corrections_view(v: Seq<(Date, Option<String>)>) -> Seq<(Date, Option<Seq<char>>)> {
    Seq::new(
        v.len(),
        |k: int|
            (
                v[k].0,
                match v[k].1 {
                    Some(s) => Some(s@),
                    None => None,
                },
            ),
    )
}

/// The years of the corrections.
pub open spec fn correction_years(c: Seq<(Date, Option<Seq<char>>)>) -> Set<i32> {
    Set::new(|y: i32| exists|k: int| 0 <= k < c.len() && #[trigger] c[k].0.year == y)
}

/// What stands for the corrections of year `y`.
pub open spec fn correction_examples(c: Seq<(Date, Option<Seq<char>>)>, y: i32) -> Set<Seq<char>> {
    Set::new(
        |e: Seq<char>|
            exists|k: int|
                0 <= k < c.len() && c[k].0.year == y && #[trigger] correction_example(c[k].0, c[k].1)
                    == e,
    )
}

/// The notes on manual corrections: per year, in order, a warning and what
/// stands for its corrections, each once, sorted and joined with `, `.
pub open spec fn correction_notes_text(c: Seq<(Date, Option<Seq<char>>)>) -> Seq<(Seq<char>, Seq<char>)> {
    let ys = sorted_years(correction_years(c));
    Seq::new(
        ys.len(),
        |k: int|
            (
                "WARNING: "@ + signed_decimal(ys[k] as int) + " had manual corrections."@,
                join(sorted_listing(correction_examples(c, ys[k])), ", "@),
            ),
    )
}

fn example_text(date: Date, description: &Option<String>) -> (r: String)
    ensures
        r@ == correction_example(
            date,
            match description {
                Some(s) => Some(s@),
                None => None,
            },
        ),
{
    match description {
        Some(d) => {
            if trim_chars(&to_chars(d.as_str())).len() > 0 {
                d.clone()
            } else {
                date.to_iso_string()
            }
        },
        None => date.to_iso_string(),
    }
}

/// The notes on the manual corrections of the records, given by their
/// dates and descriptions.
pub fn manual_correction_notes(corrections: &[(Date, Option<String>)]) -> (r: Vec<(String, String)>)
    ensures
        pairs_of(r@) == correction_notes_text(corrections_view(corrections@)),
{
    let ghost cv = corrections_view(corrections@);
    let mut years: Vec<i32> = Vec::new();
    let mut i: usize = 0;
    proof {
        assert(years@.to_set() =~= Set::<i32>::empty());
    }
    while i < corrections.len()
        invariant
            i <= corrections@.len(),
            cv == corrections_view(corrections@),
            years_sorted(years@),
            years@.to_set() == Set::new(|y: i32| exists|k: int| 0 <= k < i && #[trigger] cv[k].0.year == y),
        decreases corrections.len() - i,
    {
        let ghost before = years@;
        insert_year_sorted(&mut years, corrections[i].0.year);
        proof {
            assert(years@.to_set() =~= Set::new(|y: i32| exists|k: int| 0 <= k < i + 1 && #[trigger] cv[k].0.year == y)) by {
                assert forall|y: i32| (exists|k: int| 0 <= k < i + 1 && #[trigger] cv[k].0.year == y) implies years@.to_set().contains(y) by {
                    let k = choose|k: int| 0 <= k < i + 1 && #[trigger] cv[k].0.year == y;
                    if k < i {
                        assert(before.to_set().contains(y));
                    }
                }
                assert forall|y: i32| years@.to_set().contains(y) implies (exists|k: int| 0 <= k < i + 1 && #[trigger] cv[k].0.year == y) by {
                    if y != cv[i as int].0.year {
                        assert(before.to_set().contains(y));
                        let k = choose|k: int| 0 <= k < i && #[trigger] cv[k].0.year == y;
                        assert(0 <= k < i + 1 && cv[k].0.year == y);
                    } else {
                        assert(cv[i as int].0.year == y);
                    }
                }
            }
        }
        i = i + 1;
    }
    proof {
        assert(years@.to_set() =~= correction_years(cv));
        let c = sorted_years(correction_years(cv));
        assert(years_sorted(c) && c.to_set() == correction_years(cv));
        lemma_sorted_years_unique(c, years@);
    }
    let ghost ys = years@;
    let mut out: Vec<(String, String)> = Vec::new();
    let mut m: usize = 0;
    while m < years.len()
        invariant
            m <= years@.len(),
            ys == years@,
            ys == sorted_years(correction_years(cv)),
            cv == corrections_view(corrections@),
            out@.len() == m,
            forall|q: int|
                0 <= q < m ==> (#[trigger] out@[q]).0@ == "WARNING: "@ + signed_decimal(ys[q] as int)
                    + " had manual corrections."@ && out@[q].1@ == join(
                    sorted_listing(correction_examples(cv, ys[q])),
                    ", "@,
                ),
        decreases years.len() - m,
    {
        let y = years[m];
        let mut examples: Vec<String> = Vec::new();
        let mut j: usize = 0;
        proof {
            assert(strings_view(examples@).to_set() =~= Set::<Seq<char>>::empty());
        }
        while j < corrections.len()
            invariant
                j <= corrections@.len(),
                cv == corrections_view(corrections@),
                texts_sorted(strings_view(examples@)),
                strings_view(examples@).to_set() == Set::new(
                    |e: Seq<char>|
                        exists|k: int|
                            0 <= k < j && cv[k].0.year == y && #[trigger] correction_example(cv[k].0, cv[k].1)
                                == e,
                ),
            decreases corrections.len() - j,
        {
            let ghost before = strings_view(examples@);
            if corrections[j].0.year == y {
                let e = example_text(corrections[j].0, &corrections[j].1);
                insert_text_sorted(&mut examples, e);
            }
            proof {
                let target = Set::new(
                    |e: Seq<char>|
                        exists|k: int|
                            0 <= k < j + 1 && cv[k].0.year == y && #[trigger] correction_example(cv[k].0, cv[k].1)
                                == e,
                );
                assert(strings_view(examples@).to_set() =~= target) by {
                    assert forall|e: Seq<char>| target.contains(e) implies strings_view(examples@).to_set().contains(e) by {
                        let k = choose|k: int|
                            0 <= k < j + 1 && cv[k].0.year == y && #[trigger] correction_example(cv[k].0, cv[k].1) == e;
                        if k < j {
                            assert(before.to_set().contains(e));
                        }
                    }
                    assert forall|e: Seq<char>| strings_view(examples@).to_set().contains(e) implies target.contains(e) by {
                        if before.to_set().contains(e) {
                            let k = choose|k: int|
                                0 <= k < j && cv[k].0.year == y && #[trigger] correction_example(cv[k].0, cv[k].1) == e;
                            assert(0 <= k < j + 1);
                        } else {
                            assert(correction_example(cv[j as int].0, cv[j as int].1) == e);
                        }
                    }
                }
            }
            j = j + 1;
        }
        proof {
            assert(strings_view(examples@).to_set() =~= correction_examples(cv, y));
            lemma_is_sorted_listing(strings_view(examples@));
        }
        let mut title = to_chars("WARNING: ");
        push_all(&mut title, &signed_decimal_chars(y as i64));
        push_all(&mut title, &to_chars(" had manual corrections."));
        out.push((chars_to_string(&title), join_comma(&examples)));
        m = m + 1;
    }
    assert(pairs_of(out@) =~= correction_notes_text(cv));
    out
}

} // verus!
