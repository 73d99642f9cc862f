//! Sets of texts kept as strictly increasing sequences, as an ordered set
//! of strings lists them.
use vstd::prelude::*;

use crate::text::{
    chars_lt, lemma_text_lt_asym, lemma_text_lt_irrefl, lemma_text_lt_total, lemma_text_lt_trans,
    strings_view, text_lt, to_chars,
};

verus! {

/// Texts in strictly increasing order, so each at most once.
pub open spec fn texts_sorted(s: Seq<Seq<char>>) -> bool {
    forall|i: int, j: int| 0 <= i < j < s.len() ==> text_lt(#[trigger] s[i], #[trigger] s[j])
}

/// The texts of a finite set in increasing order.
pub open spec fn sorted_listing(s: Set<Seq<char>>) -> Seq<Seq<char>> {
    choose|l: Seq<Seq<char>>| texts_sorted(l) && l.to_set() == s
}

/// Two increasing sequences of the same texts are the same sequence.
pub proof fn lemma_sorted_listing_unique(a: Seq<Seq<char>>, b: Seq<Seq<char>>)
    requires
        texts_sorted(a),
        texts_sorted(b),
        a.to_set() == b.to_set(),
    ensures
        a == b,
    decreases a.len() + b.len(),
{
    if a.len() == 0 {
        if b.len() > 0 {
            assert(b.to_set().contains(b[0]));
        }
        assert(a =~= b);
    } else if b.len() == 0 {
        assert(a.to_set().contains(a[0]));
    } else {
        assert(b.to_set().contains(a[0]));
        assert(a.to_set().contains(b[0]));
        let i = choose|i: int| 0 <= i < b.len() && b[i] == a[0];
        let j = choose|j: int| 0 <= j < a.len() && a[j] == b[0];
        if i > 0 {
            assert(text_lt(b[0], b[i]));
            if j > 0 {
                assert(text_lt(a[0], a[j]));
                lemma_text_lt_asym(a[0], b[0]);
            } else {
                lemma_text_lt_irrefl(a[0]);
            }
        }
        assert(a[0] == b[0]);
        let a1 = a.drop_first();
        let b1 = b.drop_first();
        assert forall|x: Seq<char>| a1.to_set().contains(x) implies b1.to_set().contains(x) by {
            let k = choose|k: int| 0 <= k < a1.len() && a1[k] == x;
            assert(a.to_set().contains(x)) by { assert(a[k + 1] == x); }
            let m = choose|m: int| 0 <= m < b.len() && b[m] == x;
            if m == 0 {
                assert(text_lt(a[0], a[k + 1]));
                lemma_text_lt_irrefl(x);
            } else {
                assert(b1[m - 1] == x);
            }
        }
        assert forall|x: Seq<char>| b1.to_set().contains(x) implies a1.to_set().contains(x) by {
            let k = choose|k: int| 0 <= k < b1.len() && b1[k] == x;
            assert(b.to_set().contains(x)) by { assert(b[k + 1] == x); }
            let m = choose|m: int| 0 <= m < a.len() && a[m] == x;
            if m == 0 {
                assert(text_lt(b[0], b[k + 1]));
                lemma_text_lt_irrefl(x);
            } else {
                assert(a1[m - 1] == x);
            }
        }
        assert(a1.to_set() =~= b1.to_set());
        lemma_sorted_listing_unique(a1, b1);
        assert(a =~= seq![a[0]] + a1);
        assert(b =~= seq![b[0]] + b1);
    }
}

/// An increasing sequence is the sorted listing of its texts.
pub proof fn lemma_is_sorted_listing(l: Seq<Seq<char>>)
    requires
        texts_sorted(l),
    ensures
        sorted_listing(l.to_set()) == l,
{
    let c = sorted_listing(l.to_set());
    assert(texts_sorted(c) && c.to_set() == l.to_set());
    lemma_sorted_listing_unique(c, l);
}

/// Adds `d` to the sorted texts `v`, unless it is there already.
pub fn insert_text_sorted(v: &mut Vec<String>, d: String)
    requires
        texts_sorted(strings_view(old(v)@)),
    ensures
        texts_sorted(strings_view(final(v)@)),
        strings_view(final(v)@).to_set() == strings_view(old(v)@).to_set().insert(d@),
{
    let ghost before = strings_view(v@);
    let dv = to_chars(d.as_str());
    let mut p: usize = 0;
    while p < v.len()
        && chars_lt(&to_chars(v[p].as_str()), &dv)
        invariant
            p <= v@.len(),
            before == strings_view(v@),
            texts_sorted(before),
            dv@ == d@,
            forall|k: int| 0 <= k < p ==> text_lt(#[trigger] before[k], d@),
        decreases v.len() - p,
    {
        p = p + 1;
    }
    if p < v.len() && v[p] == d {
        assert(before.to_set().insert(d@) =~= before.to_set()) by {
            assert(before.contains(before[p as int]));
        }
        return ;
    }
    proof {
        if p < before.len() {
            lemma_text_lt_total(before[p as int], d@);
        }
        assert forall|k: int| p <= k < before.len() implies text_lt(d@, #[trigger] before[k]) by {
            if k > p {
                lemma_text_lt_trans(d@, before[p as int], before[k]);
            }
        }
    }
    v.insert(p, d);
    proof {
        let after = strings_view(v@);
        assert(after =~= before.insert(p as int, d@));
        assert forall|i: int, j: int| 0 <= i < j < after.len() implies text_lt(
            #[trigger] after[i],
            #[trigger] after[j],
        ) by {
            if j < p {
            } else if i < p && j == p {
            } else if i < p {
                assert(after[j] == before[j - 1]);
                lemma_text_lt_trans(before[i], d@, before[j - 1]);
            } else if i == p {
                assert(after[j] == before[j - 1]);
            } else {
                assert(after[i] == before[i - 1]);
                assert(after[j] == before[j - 1]);
            }
        }
        assert(after.to_set() =~= before.to_set().insert(d@)) by {
            assert forall|x: Seq<char>| after.contains(x) implies before.to_set().insert(d@).contains(x) by {
                let k = choose|k: int| 0 <= k < after.len() && after[k] == x;
                if k < p {
                    assert(before.contains(before[k]));
                } else if k > p {
                    assert(before.contains(before[k - 1]));
                }
            }
            assert forall|x: Seq<char>| before.to_set().insert(d@).contains(x) implies after.contains(x) by {
                if x == d@ {
                    assert(after[p as int] == d@);
                } else {
                    let k = choose|k: int| 0 <= k < before.len() && before[k] == x;
                    if k < p {
                        assert(after[k] == x);
                    } else {
                        assert(after[k + 1] == x);
                    }
                }
            }
        }
    }
}



} // verus!
