//! Filling the `{{Key}}` placeholders of a statement template.
use vstd::prelude::*;

use crate::errors::Error;
use crate::text::{chars_to_string, push_all, strings_view, to_chars};

verus! {

/// The pieces of `content` between the matches of `\{\{(\w+)\}\}`, as the
/// regex crate's `Regex::split` yields them.
pub uninterp spec fn placeholder_split(content: Seq<char>) -> Seq<Seq<char>>;

/// The keys (the first group) of the successive matches of
/// `\{\{(\w+)\}\}` in `content`, as the regex crate's `Regex::captures_iter`
/// yields them.
pub uninterp spec fn placeholder_keys_of(content: Seq<char>) -> Seq<Seq<char>>;

/// A placeholder as written in a template.
pub open spec fn placeholder(key: Seq<char>) -> Seq<char> {
    "{{"@ + key + "}}"@
}

/// The pieces of a template with, between each two of them, the text that
/// `fill` gives for the key there.
pub open spec fn interleave(segments: Seq<Seq<char>>, fills: Seq<Seq<char>>) -> Seq<char>
    decreases fills.len(),
{
    if fills.len() == 0 || segments.len() == 0 {
        if segments.len() > 0 {
            segments[0]
        } else {
            Seq::empty()
        }
    } else {
        interleave(segments.drop_last(), fills.drop_last()) + fills.last() + segments.last()
    }
}

/// `Regex::split` with the placeholder pattern.
#[verifier::external_body]
fn split_at_placeholders(content: &str) -> (r: Vec<String>)
    ensures
        strings_view(r@) == placeholder_split(content@),
{
    let re = regex::Regex::new(r"\{\{(\w+)\}\}").unwrap();
    re.split(content).map(|piece| piece.to_string()).collect()
}

/// `Regex::captures_iter` with the placeholder pattern, each match taken by
/// its first group. The matches are those that split at: one fewer than the
/// pieces, and the pieces with the matches put back between them are the
/// content (each match being the key in double braces).
#[verifier::external_body]
fn placeholder_keys(content: &str) -> (r: Vec<String>)
    ensures
        strings_view(r@) == placeholder_keys_of(content@),
        r@.len() + 1 == placeholder_split(content@).len(),
        content@ == interleave(
            placeholder_split(content@),
            Seq::new(r@.len(), |k: int| placeholder(r@[k]@)),
        ),
{
    let re = regex::Regex::new(r"\{\{(\w+)\}\}").unwrap();
    re.captures_iter(content).map(|caps| caps[1].to_string()).collect()
}

/// The value given for `key`: that of the last pair with that key, as a map
/// filled in order keeps it.
pub open spec fn lookup(pairs: Seq<(Seq<char>, Seq<char>)>, key: Seq<char>) -> Option<Seq<char>>
    decreases pairs.len(),
{
    if pairs.len() == 0 {
        None
    } else if pairs.last().0 == key {
        Some(pairs.last().1)
    } else {
        lookup(pairs.drop_last(), key)
    }
}

/// What a placeholder is replaced with: its value, or itself when it has none.
pub open spec fn fill_of(pairs: Seq<(Seq<char>, Seq<char>)>, key: Seq<char>) -> Seq<char> {
    match lookup(pairs, key) {
        Some(v) => v,
        None => placeholder(key),
    }
}

/// The keys that have no value, in the order they occur.
pub open spec fn unknown_keys(pairs: Seq<(Seq<char>, Seq<char>)>, keys: Seq<Seq<char>>) -> Seq<Seq<char>>
    decreases keys.len(),
{
    if keys.len() == 0 {
        Seq::empty()
    } else if lookup(pairs, keys.last()) is None {
        unknown_keys(pairs, keys.drop_last()).push(keys.last())
    } else {
        unknown_keys(pairs, keys.drop_last())
    }
}

pub open spec fn pairs_view(v: Seq<(String, String)>) -> Seq<(Seq<char>, Seq<char>)> {
    Seq::new(v.len(), |k: int| (v[k].0@, v[k].1@))
}

/// The filled template, or the keys left without a value when they are to
/// be reported.
pub open spec fn filled(
    segments: Seq<Seq<char>>,
    keys: Seq<Seq<char>>,
    pairs: Seq<(Seq<char>, Seq<char>)>,
    error_if_unreplaced: bool,
) -> Result<Seq<char>, Seq<Seq<char>>> {
    if error_if_unreplaced && unknown_keys(pairs, keys).len() > 0 {
        Err(unknown_keys(pairs, keys))
    } else {
        Ok(interleave(segments, Seq::new(keys.len(), |k: int| fill_of(pairs, keys[k]))))
    }
}

fn lookup_value(pairs: &[(String, String)], key: &String) -> (r: Option<String>)
    ensures
        match lookup(pairs_view(pairs@), key@) {
            Some(v) => r matches Some(s) && s@ == v,
            None => r is None,
        },
{
    let ghost pv = pairs_view(pairs@);
    let mut i: usize = pairs.len();
    assert(pv.take(i as int) == pv);
    while i > 0
        invariant
            i <= pairs@.len(),
            pv == pairs_view(pairs@),
            lookup(pv, key@) == lookup(pv.take(i as int), key@),
        decreases i,
    {
        assert(pv.take(i as int).drop_last() == pv.take(i - 1));
        if pairs[i - 1].0 == *key {
            return Some(pairs[i - 1].1.clone());
        }
        i = i - 1;
    }
    None
}

/// The template given by its pieces and the keys between them, each key
/// replaced with its value; a key without a value stays as it was written.
/// When `error_if_unreplaced` is set and some key has no value, those keys
/// are reported instead.
pub fn fill_placeholders(
    segments: &[String],
    keys: &[String],
    placeholders: &[(String, String)],
    error_if_unreplaced: bool,
) -> (r: Result<String, Error>)
    requires
        segments@.len() == keys@.len() + 1,
    ensures
        match filled(strings_view(segments@), strings_view(keys@), pairs_view(placeholders@), error_if_unreplaced) {
            Ok(text) => r matches Ok(s) && s@ == text,
            Err(unknown) => r matches Err(Error::UnreplacedPlaceholdersRemain { unreplaced })
                && strings_view(unreplaced@) == unknown,
        },
{
    let ghost sv = strings_view(segments@);
    let ghost kv = strings_view(keys@);
    let ghost pv = pairs_view(placeholders@);
    let ghost fills = Seq::new(kv.len(), |k: int| fill_of(pv, kv[k]));
    let mut out = to_chars(segments[0].as_str());
    let mut unknown: Vec<String> = Vec::new();
    let mut i: usize = 0;
    proof {
        assert(sv.take(1).drop_last().len() == 0);
        assert(fills.take(0).len() == 0);
        assert(kv.take(0).len() == 0);
        assert(strings_view(unknown@) =~= Seq::<Seq<char>>::empty());
    }
    while i < keys.len()
        invariant
            i <= keys@.len(),
            segments@.len() == keys@.len() + 1,
            sv == strings_view(segments@),
            kv == strings_view(keys@),
            pv == pairs_view(placeholders@),
            fills == Seq::new(kv.len(), |k: int| fill_of(pv, kv[k])),
            out@ == interleave(sv.take(i + 1), fills.take(i as int)),
            strings_view(unknown@) == unknown_keys(pv, kv.take(i as int)),
        decreases keys.len() - i,
    {
        let ghost before = unknown@;
        match lookup_value(placeholders, &keys[i]) {
            Some(v) => {
                push_all(&mut out, &to_chars(v.as_str()));
                assert(strings_view(unknown@) == unknown_keys(pv, kv.take(i + 1))) by {
                    assert(kv.take(i + 1).drop_last() == kv.take(i as int));
                }
            },
            None => {
                let mut p = to_chars("{{");
                push_all(&mut p, &to_chars(keys[i].as_str()));
                push_all(&mut p, &to_chars("}}"));
                push_all(&mut out, &p);
                unknown.push(keys[i].clone());
                assert(strings_view(unknown@) == unknown_keys(pv, kv.take(i + 1))) by {
                    assert(kv.take(i + 1).drop_last() == kv.take(i as int));
                    assert(strings_view(unknown@) =~= strings_view(before).push(kv[i as int]));
                }
            },
        }
        push_all(&mut out, &to_chars(segments[i + 1].as_str()));
        proof {
            assert(sv.take(i + 2).drop_last() == sv.take(i + 1));
            assert(fills.take(i + 1).drop_last() == fills.take(i as int));
        }
        i = i + 1;
    }
    proof {
        assert(sv.take(i + 1) == sv);
        assert(fills.take(i as int) == fills);
        assert(kv.take(i as int) == kv);
    }
    if error_if_unreplaced && unknown.len() > 0 {
        return Err(Error::UnreplacedPlaceholdersRemain { unreplaced: unknown });
    }
    Ok(chars_to_string(&out))
}

/// The template `content` with each `{{Key}}` replaced with the value
/// given for `Key`; one without a value stays as it was written. When
/// `error_if_unreplaced_placeholders_remain` is set and some placeholder has
/// no value, those keys are reported instead.
pub fn replace_all_placeholders_in_string(
    content: String,
    placeholders: &[(String, String)],
    error_if_unreplaced_placeholders_remain: bool,
) -> (r: Result<String, Error>)
    ensures
        match filled(
            placeholder_split(content@),
            placeholder_keys_of(content@),
            pairs_view(placeholders@),
            error_if_unreplaced_placeholders_remain,
        ) {
            Ok(text) => r matches Ok(s) && s@ == text,
            Err(unknown) => r matches Err(Error::UnreplacedPlaceholdersRemain { unreplaced })
                && strings_view(unreplaced@) == unknown,
        },
        placeholders@.len() == 0 && !error_if_unreplaced_placeholders_remain ==> (r matches Ok(s)
            && s@ == content@),
{
    let segments = split_at_placeholders(content.as_str());
    let keys = placeholder_keys(content.as_str());
    proof {
        let pv = pairs_view(placeholders@);
        let kv = strings_view(keys@);
        if placeholders@.len() == 0 {
            assert(Seq::new(kv.len(), |k: int| fill_of(pv, kv[k])) =~= Seq::new(
                keys@.len(),
                |k: int| placeholder(keys@[k]@),
            ));
        }
    }
    fill_placeholders(&segments, &keys, placeholders, error_if_unreplaced_placeholders_remain)
}

} // verus!
