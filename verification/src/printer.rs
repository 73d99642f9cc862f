//! The lines of the printed ledger: transaction headers and postings with
//! their tags, declarations listed once and sorted, balance assertions,
//! and the year-end closing entries.
use vstd::prelude::*;

use crate::account::Account;
use crate::cashflow::{cashflow_tag_value, CashflowTag};
use crate::date::{iso_text, Date};
use crate::journal_text::{declaration_line, format_account_declaration, format_posting_line, posting_line};
use crate::ledger_names::{ledger_name, type_tag_of};
use crate::numfmt::{decimal, signed_decimal, signed_decimal_chars};
use crate::sorted_texts::{insert_text_sorted, lemma_is_sorted_listing, sorted_listing, texts_sorted};
use crate::spec_types::{CloseLogic, TransactionLabel, TransactionSpecId};
use crate::text::{chars_to_string, concat, join, join_chars, push_all, strings_view, to_chars};

verus! {

/// How a transaction is labelled: `payee | description`, with the comment
/// before the description when there is one; `(unknown)` without a label.
pub open spec fn label_text(label: Option<(Seq<char>, Seq<char>)>, comment: Option<Seq<char>>) -> Seq<char> {
    match label {
        None => "(unknown)"@,
        Some((payee, description)) => match comment {
            Some(c) => payee + " | "@ + c + ": "@ + description,
            None => payee + " | "@ + description,
        },
    }
}

/// The header line of a transaction: its date, its specification's row
/// in parentheses, and its label.
pub open spec fn transaction_header_text(
    date: Date,
    id: TransactionSpecId,
    label: Option<(Seq<char>, Seq<char>)>,
    comment: Option<Seq<char>>,
) -> Seq<char> {
    iso_text(date) + " ("@ + decimal(id.0 as nat) + ") "@ + label_text(label, comment)
}

/// The header line of a transaction.
pub fn transaction_header(
    date: Date,
    spec_id: TransactionSpecId,
    label: Option<&TransactionLabel>,
    comment: Option<&str>,
) -> (r: String)
    ensures
        r@ == transaction_header_text(
            date,
            spec_id,
            match label {
                Some(l) => Some((l.payee@, l.description@)),
                None => None,
            },
            match comment {
                Some(c) => Some(c@),
                None => None,
            },
        ),
{
    let mut out = date.to_iso_string();
    out.append(" (");
    out.append(spec_id.text().as_str());
    out.append(") ");
    match label {
        None => {
            out.append("(unknown)");
        },
        Some(l) => {
            out.append(l.payee.as_str());
            out.append(" | ");
            match comment {
                Some(c) => {
                    out.append(c);
                    out.append(": ");
                },
                None => {},
            }
            out.append(l.description.as_str());
        },
    }
    out
}

/// The tags of a posting, after its amount: the cash flow tag of its
/// account, then its own tags, each `key: value`, behind a comment mark.
pub open spec fn tags_text(cashflow: Option<CashflowTag>, custom: Seq<(Seq<char>, Seq<char>)>) -> Seq<char> {
    let own = Seq::new(custom.len(), |k: int| custom[k].0 + ": "@ + custom[k].1);
    let tags = match cashflow {
        Some(t) => seq!["cft: "@ + cashflow_tag_value(t)] + own,
        None => own,
    };
    if tags.len() == 0 {
        Seq::empty()
    } else {
        "       ; "@ + join(tags, ", "@)
    }
}

/// A posting line of a transaction, with its tags.
pub fn posting_with_tags(
    account_ledger: &str,
    amount: &str,
    cashflow: Option<CashflowTag>,
    custom_tags: &[(String, String)],
) -> (r: String)
    ensures
        r@ == posting_line(account_ledger@, amount@) + tags_text(
            cashflow,
            Seq::new(custom_tags@.len(), |k: int| (custom_tags@[k].0@, custom_tags@[k].1@)),
        ),
{
    let ghost cv = Seq::new(custom_tags@.len(), |k: int| (custom_tags@[k].0@, custom_tags@[k].1@));
    let ghost own = Seq::new(cv.len(), |k: int| cv[k].0 + ": "@ + cv[k].1);
    let mut tags: Vec<Vec<char>> = Vec::new();
    let ghost pre: Seq<Seq<char>> = match cashflow {
        Some(t) => seq!["cft: "@ + cashflow_tag_value(t)],
        None => Seq::empty(),
    };
    match cashflow {
        Some(t) => {
            let mut v = to_chars("cft: ");
            push_all(&mut v, &to_chars(t.value().as_str()));
            tags.push(v);
        },
        None => {},
    }
    let base = tags.len();
    let mut i: usize = 0;
    while i < custom_tags.len()
        invariant
            i <= custom_tags@.len(),
            base == pre.len(),
            tags@.len() == base + i,
            cv == Seq::new(custom_tags@.len(), |k: int| (custom_tags@[k].0@, custom_tags@[k].1@)),
            own == Seq::new(cv.len(), |k: int| cv[k].0 + ": "@ + cv[k].1),
            forall|k: int| 0 <= k < base ==> #[trigger] tags@[k]@ == pre[k],
            forall|k: int| 0 <= k < i ==> #[trigger] tags@[base + k]@ == own[k],
        decreases custom_tags.len() - i,
    {
        let mut v = to_chars(custom_tags[i].0.as_str());
        push_all(&mut v, &to_chars(": "));
        push_all(&mut v, &to_chars(custom_tags[i].1.as_str()));
        tags.push(v);
        i = i + 1;
    }
    let mut out = to_chars(format_posting_line(account_ledger, amount).as_str());
    proof {
        let all = pre + own;
        assert forall|k: int| 0 <= k < tags@.len() implies #[trigger] tags@[k]@ == all[k] by {
            if k >= base {
                assert(tags@[base + (k - base)]@ == own[k - base]);
            }
        }
        assert(Seq::new(tags@.len(), |k: int| tags@[k]@) =~= all);
        assert(match cashflow {
            Some(t) => seq!["cft: "@ + cashflow_tag_value(t)] + own,
            None => own,
        } =~= all);
    }
    if tags.len() > 0 {
        push_all(&mut out, &to_chars("       ; "));
        push_all(&mut out, &join_chars(&tags, &to_chars(", ")));
    }
    chars_to_string(&out)
}

/// Lines given each once and sorted, each followed by a newline.
pub open spec fn sorted_lines_text(lines: Seq<Seq<char>>) -> Seq<char> {
    let sorted = sorted_listing(lines.to_set());
    concat(Seq::new(sorted.len(), |k: int| sorted[k] + "\n"@))
}

/// The given lines, each once and sorted, each followed by a newline.
pub fn sorted_unique_lines(lines: &[String]) -> (r: String)
    ensures
        r@ == sorted_lines_text(strings_view(lines@)),
{
    let ghost lv = strings_view(lines@);
    let mut v: Vec<String> = Vec::new();
    let mut i: usize = 0;
    proof {
        assert(strings_view(v@).to_set() =~= lv.take(0).to_set());
    }
    while i < lines.len()
        invariant
            i <= lines@.len(),
            lv == strings_view(lines@),
            texts_sorted(strings_view(v@)),
            strings_view(v@).to_set() == lv.take(i as int).to_set(),
        decreases lines.len() - i,
    {
        insert_text_sorted(&mut v, lines[i].clone());
        proof {
            assert(lv.take(i + 1) == lv.take(i as int).push(lv[i as int]));
            lv.take(i as int).lemma_push_to_set_commute(lv[i as int]);
        }
        i = i + 1;
    }
    assert(lv.take(lv.len() as int) == lv);
    let ghost sv = strings_view(v@);
    proof {
        lemma_is_sorted_listing(sv);
    }
    let mut out: Vec<char> = Vec::new();
    let mut k: usize = 0;
    while k < v.len()
        invariant
            k <= v@.len(),
            sv == strings_view(v@),
            out@ == concat(Seq::new(k as nat, |m: int| sv[m] + "\n"@)),
        decreases v.len() - k,
    {
        push_all(&mut out, &to_chars(v[k].as_str()));
        push_all(&mut out, &to_chars("\n"));
        proof {
            let s1 = Seq::new((k + 1) as nat, |m: int| sv[m] + "\n"@);
            assert(s1.drop_last() =~= Seq::new(k as nat, |m: int| sv[m] + "\n"@));
        }
        k = k + 1;
    }
    chars_to_string(&out)
}

/// The account declarations of the given accounts, each once and sorted.
pub fn print_accounts(accounts: &[Account]) -> (r: String)
    ensures
        r@ == sorted_lines_text(
            Seq::new(
                accounts@.len(),
                |k: int| declaration_line(ledger_name(accounts@[k]), type_tag_of(accounts@[k])),
            ),
        ),
{
    let mut decls: Vec<String> = Vec::new();
    let mut i: usize = 0;
    while i < accounts.len()
        invariant
            i <= accounts@.len(),
            decls@.len() == i,
            forall|k: int| 0 <= k < i ==> #[trigger] decls@[k]@ == declaration_line(
                ledger_name(accounts@[k]),
                type_tag_of(accounts@[k]),
            ),
        decreases accounts.len() - i,
    {
        decls.push(format_account_declaration(&accounts[i]));
        i = i + 1;
    }
    assert(strings_view(decls@) =~= Seq::new(
        accounts@.len(),
        |k: int| declaration_line(ledger_name(accounts@[k]), type_tag_of(accounts@[k])),
    ));
    sorted_unique_lines(&decls)
}

/// The payee declarations of the given payees, each once and sorted.
pub fn print_payees(payees: &[String]) -> (r: String)
    ensures
        r@ == sorted_lines_text(Seq::new(payees@.len(), |k: int| "payee "@ + payees@[k]@)),
{
    let mut decls: Vec<String> = Vec::new();
    let mut i: usize = 0;
    while i < payees.len()
        invariant
            i <= payees@.len(),
            decls@.len() == i,
            forall|k: int| 0 <= k < i ==> #[trigger] decls@[k]@ == "payee "@ + payees@[k]@,
        decreases payees.len() - i,
    {
        let mut d = String::new();
        d.append("payee ");
        d.append(payees[i].as_str());
        decls.push(d);
        i = i + 1;
    }
    assert(strings_view(decls@) =~= Seq::new(payees@.len(), |k: int| "payee "@ + payees@[k]@));
    sorted_unique_lines(&decls)
}

/// A balance assertion: a dated `<assertion>` transaction whose posting
/// asserts the balance of the account, followed by a blank line.
pub open spec fn assertion_text(date: Date, account_ledger: Seq<char>, balance: Seq<char>) -> Seq<char> {
    iso_text(date) + " <assertion>\n"@ + posting_line(account_ledger, "0 == "@ + balance) + "\n\n"@
}

/// The entry of a balance assertion, with the balance as written.
pub fn assertion_entry(date: Date, account_ledger: &str, balance: &str) -> (r: String)
    ensures
        r@ == assertion_text(date, account_ledger@, balance@),
{
    let mut out = date.to_iso_string();
    out.append(" <assertion>\n");
    let mut right = String::new();
    right.append("0 == ");
    right.append(balance);
    out.append(format_posting_line(account_ledger, right.as_str()).as_str());
    out.append("\n\n");
    out
}

/// The title of a year-end close entry for the close logic.
pub open spec fn close_title(logic: CloseLogic) -> Seq<char> {
    match logic {
        CloseLogic::Retain => "Retain Earnings"@,
    }
}

/// A year-end close entry: its title line tagged `close:<year>`, a posting
/// that zeroes each closed account (its amount asserted to leave a zero
/// balance), and the posting to the destination account, for the total
/// when one is given; then a blank line.
pub open spec fn close_entry_lines(
    date: Date,
    logic: CloseLogic,
    postings: Seq<(Seq<char>, Seq<char>)>,
    zero: Seq<char>,
    destination: Seq<char>,
    total: Option<Seq<char>>,
) -> Seq<char> {
    iso_text(date) + " "@ + close_title(logic) + "  ; close:"@ + signed_decimal(date.year as int)
        + "\n"@ + concat(
        Seq::new(
            postings.len(),
            |k: int| posting_line(postings[k].0, postings[k].1 + " = "@ + zero) + "\n"@,
        ),
    ) + match total {
        Some(t) => posting_line(destination, t) + "\n"@,
        None => "    "@ + destination + "\n"@,
    } + "\n"@
}

/// The entry that closes a year: `postings` are the accounts closed with
/// their amounts, `zero` the zero amount, `destination` the ledger name of
/// the account the result goes to, and `total` its amount, if known; all
/// amounts as written.
pub fn close_entry(
    date: Date,
    logic: CloseLogic,
    postings: &[(String, String)],
    zero: &str,
    destination: &str,
    total: Option<&str>,
) -> (r: String)
    ensures
        r@ == close_entry_lines(
            date,
            logic,
            Seq::new(postings@.len(), |k: int| (postings@[k].0@, postings@[k].1@)),
            zero@,
            destination@,
            match total {
                Some(t) => Some(t@),
                None => None,
            },
        ),
{
    let ghost pv = Seq::new(postings@.len(), |k: int| (postings@[k].0@, postings@[k].1@));
    let mut out = to_chars(date.to_iso_string().as_str());
    push_all(&mut out, &to_chars(" "));
    match logic {
        CloseLogic::Retain => {
            push_all(&mut out, &to_chars("Retain Earnings"));
        },
    }
    push_all(&mut out, &to_chars("  ; close:"));
    push_all(&mut out, &signed_decimal_chars(date.year as i64));
    push_all(&mut out, &to_chars("\n"));
    let ghost head = out@;
    assert(head == iso_text(date) + " "@ + close_title(logic) + "  ; close:"@ + signed_decimal(
        date.year as int,
    ) + "\n"@);
    let mut i: usize = 0;
    while i < postings.len()
        invariant
            i <= postings@.len(),
            pv == Seq::new(postings@.len(), |k: int| (postings@[k].0@, postings@[k].1@)),
            out@ == head + concat(
                Seq::new(
                    i as nat,
                    |k: int| posting_line(pv[k].0, pv[k].1 + " = "@ + zero@) + "\n"@,
                ),
            ),
        decreases postings.len() - i,
    {
        let mut right = String::new();
        right.append(postings[i].1.as_str());
        right.append(" = ");
        right.append(zero);
        push_all(&mut out, &to_chars(format_posting_line(postings[i].0.as_str(), right.as_str()).as_str()));
        push_all(&mut out, &to_chars("\n"));
        proof {
            let f = |k: int| posting_line(pv[k].0, pv[k].1 + " = "@ + zero@) + "\n"@;
            assert(Seq::new((i + 1) as nat, f).drop_last() =~= Seq::new(i as nat, f));
        }
        i = i + 1;
    }
    assert(Seq::new(i as nat, |k: int| posting_line(pv[k].0, pv[k].1 + " = "@ + zero@) + "\n"@)
        =~= Seq::new(pv.len(), |k: int| posting_line(pv[k].0, pv[k].1 + " = "@ + zero@) + "\n"@));
    match total {
        Some(t) => {
            push_all(&mut out, &to_chars(format_posting_line(destination, t).as_str()));
            push_all(&mut out, &to_chars("\n"));
        },
        None => {
            push_all(&mut out, &to_chars("    "));
            push_all(&mut out, &to_chars(destination));
            push_all(&mut out, &to_chars("\n"));
        },
    }
    push_all(&mut out, &to_chars("\n"));
    chars_to_string(&out)
}

} // verus!
