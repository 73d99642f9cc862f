//! Sections of the printed ledger that are built from ledger text given by
//! the user: custom ledger extensions and the year-end corrections.
use vstd::prelude::*;

use crate::journal_text::{
    attach_transaction_notes, attach_transaction_tag, declarations_of,
    extract_and_normalize_account_declarations, extract_and_normalize_non_account_lines,
    non_declarations_of, notes_lines, tagged_line, with_notes,
};
use crate::numfmt::{signed_decimal, signed_decimal_chars};
use crate::sorted_texts::{
    insert_text_sorted, lemma_is_sorted_listing, sorted_listing, texts_sorted,
};
use crate::text::{chars_to_string, concat, join, lines, push_all, strings_view, to_chars, trim};

verus! {

/// The account declarations of all the extensions, each re-spaced.
pub open spec fn extension_declarations(exts: Seq<Seq<char>>) -> Set<Seq<char>>
    decreases exts.len(),
{
    if exts.len() == 0 {
        Set::empty()
    } else {
        extension_declarations(exts.drop_last()).union(
            declarations_of(lines(exts.last())).to_set(),
        )
    }
}

/// An extension without its declarations, posting lines re-spaced.
pub open spec fn normalized_extension(ext: Seq<char>) -> Seq<char> {
    trim(join(non_declarations_of(lines(ext)), "\n"@))
}

/// The custom extensions section: their declarations, each once and
/// sorted, one a line, and a blank line after them if there are any; then
/// each extension that is not empty without them, followed by a blank line.
pub open spec fn extensions_text(exts: Seq<Seq<char>>) -> Seq<char> {
    let decls = sorted_listing(extension_declarations(exts));
    concat(Seq::new(decls.len(), |k: int| decls[k] + "\n"@)) + (if decls.len() > 0 {
        "\n"@
    } else {
        Seq::empty()
    }) + concat(
        Seq::new(
            exts.len(),
            |k: int|
                if normalized_extension(exts[k]).len() == 0 {
                    Seq::empty()
                } else {
                    normalized_extension(exts[k]) + "\n\n"@
                },
        ),
    )
}

/// The text of the custom ledger extensions section.
pub fn print_ledger_extensions(ledger_extensions: &[String]) -> (r: String)
    ensures
        r@ == extensions_text(strings_view(ledger_extensions@)),
{
    let ghost ev = strings_view(ledger_extensions@);
    let mut decls: Vec<String> = Vec::new();
    let mut i: usize = 0;
    proof {
        assert(strings_view(decls@).to_set() =~= Set::empty());
    }
    while i < ledger_extensions.len()
        invariant
            i <= ledger_extensions@.len(),
            ev == strings_view(ledger_extensions@),
            texts_sorted(strings_view(decls@)),
            strings_view(decls@).to_set() == extension_declarations(ev.take(i as int)),
        decreases ledger_extensions.len() - i,
    {
        proof {
            assert(ev.take(i + 1).drop_last() == ev.take(i as int));
            assert(ev.take(i + 1).last() == ev[i as int]);
        }
        let found = extract_and_normalize_account_declarations(ledger_extensions[i].as_str());
        let ghost fv = declarations_of(lines(ev[i as int]));
        let ghost base = extension_declarations(ev.take(i as int));
        let mut j: usize = 0;
        proof {
            assert(fv.take(0).to_set() =~= Set::empty());
            assert(base.union(Set::empty()) =~= base);
        }
        while j < found.len()
            invariant
                j <= found@.len(),
                found@.len() == fv.len(),
                forall|k: int| 0 <= k < found@.len() ==> #[trigger] found@[k]@ == fv[k],
                texts_sorted(strings_view(decls@)),
                strings_view(decls@).to_set() == base.union(fv.take(j as int).to_set()),
            decreases found.len() - j,
        {
            insert_text_sorted(&mut decls, found[j].clone());
            proof {
                assert(fv.take(j + 1) == fv.take(j as int).push(fv[j as int]));
                fv.take(j as int).lemma_push_to_set_commute(fv[j as int]);
                assert(base.union(fv.take(j as int).to_set()).insert(fv[j as int]) =~= base.union(
                    fv.take(j as int).to_set().insert(fv[j as int]),
                ));
            }
            j = j + 1;
        }
        assert(fv.take(fv.len() as int) == fv);
        i = i + 1;
    }
    assert(ev.take(ev.len() as int) == ev);
    let ghost dv = strings_view(decls@);
    proof {
        lemma_is_sorted_listing(dv);
    }
    let mut out: Vec<char> = Vec::new();
    let mut k: usize = 0;
    while k < decls.len()
        invariant
            k <= decls@.len(),
            dv == strings_view(decls@),
            out@ == concat(Seq::new(k as nat, |m: int| dv[m] + "\n"@)),
        decreases decls.len() - k,
    {
        push_all(&mut out, &to_chars(decls[k].as_str()));
        push_all(&mut out, &to_chars("\n"));
        proof {
            let s1 = Seq::new((k + 1) as nat, |m: int| dv[m] + "\n"@);
            assert(s1.drop_last() =~= Seq::new(k as nat, |m: int| dv[m] + "\n"@));
        }
        k = k + 1;
    }
    if decls.len() > 0 {
        push_all(&mut out, &to_chars("\n"));
    }
    let ghost head = out@;
    let mut m: usize = 0;
    while m < ledger_extensions.len()
        invariant
            m <= ledger_extensions@.len(),
            ev == strings_view(ledger_extensions@),
            out@ == head + concat(
                Seq::new(
                    m as nat,
                    |q: int|
                        if normalized_extension(ev[q]).len() == 0 {
                            Seq::empty()
                        } else {
                            normalized_extension(ev[q]) + "\n\n"@
                        },
                ),
            ),
        decreases ledger_extensions.len() - m,
    {
        let n = extract_and_normalize_non_account_lines(ledger_extensions[m].as_str());
        let nv = to_chars(n.as_str());
        if nv.len() > 0 {
            push_all(&mut out, &nv);
            push_all(&mut out, &to_chars("\n\n"));
        }
        proof {
            let f = |q: int|
                if normalized_extension(ev[q]).len() == 0 {
                    Seq::<char>::empty()
                } else {
                    normalized_extension(ev[q]) + "\n\n"@
                };
            let s1 = Seq::new((m + 1) as nat, f);
            assert(s1.drop_last() =~= Seq::new(m as nat, f));
        }
        m = m + 1;
    }
    chars_to_string(&out)
}

/// A year-end correction as printed: its ledger text without declarations
/// and re-spaced, each transaction tagged `correction:<year>` and followed
/// by the notes.
pub open spec fn correction_text(macro_output: Seq<char>, tag: Seq<char>, notes: Seq<Seq<char>>) -> Seq<char> {
    let normalized = normalized_extension(macro_output);
    let tagged = join(
        Seq::new(lines(normalized).len(), |i: int| tagged_line(lines(normalized), i, tag)),
        "\n"@,
    );
    if notes.len() == 0 {
        tagged
    } else {
        join(with_notes(lines(tagged), 0, notes_lines(notes)), "\n"@)
    }
}

/// A year-end correction of `year` as printed in the ledger.
pub fn print_correction(macro_output: &str, year: i32, notes: &[String]) -> (r: String)
    ensures
        r@ == correction_text(
            macro_output@,
            "correction:"@ + signed_decimal(year as int),
            strings_view(notes@),
        ),
{
    let normalized = extract_and_normalize_non_account_lines(macro_output);
    let mut tag = to_chars("correction:");
    push_all(&mut tag, &signed_decimal_chars(year as i64));
    let tag = chars_to_string(&tag);
    let tagged = attach_transaction_tag(normalized, tag.as_str());
    proof {
        assert(Seq::new(notes@.len(), |k: int| notes@[k]@) =~= strings_view(notes@));
    }
    attach_transaction_notes(tagged, notes)
}

} // verus!
