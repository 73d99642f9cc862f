//! Assembly of the cash flow statement from its template: the layout of the
//! period columns, the values of the placeholders, and their replacement.
use vstd::prelude::*;

use crate::errors::Error;
use crate::journal_text::pad_right;
use crate::report_layout::{
    columns_text, format_columns, rendered_width, layout_fits, right_align, HR_CHAR, ReportLayout,
};
use crate::text::{
    chars_lt, chars_to_string, join, join_chars, push_all, push_repeat, repeat_char, strings_view,
    text_lt, to_chars, trim, trim_chars, lemma_text_lt_irrefl, lemma_text_lt_total,
    lemma_text_lt_asym, lemma_text_lt_trans,
};

verus! {

/// The largest length of the texts of `v`, or 0.
pub open spec fn max_len(v: Seq<Seq<char>>) -> nat
    decreases v.len(),
{
    if v.len() == 0 {
        0
    } else {
        let m = max_len(v.drop_last());
        if v.last().len() > m {
            v.last().len()
        } else {
            m
        }
    }
}

fn max_width(v: &[String]) -> (r: usize)
    ensures
        r == max_len(strings_view(v@)),
{
    let ghost sv = strings_view(v@);
    let mut m: usize = 0;
    let mut i: usize = 0;
    while i < v.len()
        invariant
            i <= v@.len(),
            sv == strings_view(v@),
            m == max_len(sv.take(i as int)),
        decreases v.len() - i,
    {
        assert(sv.take(i + 1).drop_last() == sv.take(i as int));
        let w = crate::journal_text::char_width(v[i].as_str());
        if w > m {
            m = w;
        }
        i = i + 1;
    }
    assert(sv.take(v@.len() as int) == sv);
    m
}

/// The layout of the statement: one column per period, as wide as the
/// widest rendered amount or period name.
pub fn build_report_layout(rendered_amounts: &[String], periods: &[String]) -> (r: ReportLayout)
    ensures
        r.period_count == periods@.len(),
        r.column_width == if max_len(strings_view(rendered_amounts@)) > max_len(
            strings_view(periods@),
        ) {
            max_len(strings_view(rendered_amounts@))
        } else {
            max_len(strings_view(periods@))
        },
{
    let a = max_width(rendered_amounts);
    let p = max_width(periods);
    ReportLayout { period_count: periods.len(), column_width: if a > p { a } else { p } }
}

/// Index of the greatest period name, the last one among equals; as
/// `max_by_key` picks it.
pub open spec fn is_latest(v: Seq<Seq<char>>, i: int) -> bool {
    &&& 0 <= i < v.len()
    &&& forall|j: int| 0 <= j < v.len() ==> !text_lt(v[i], #[trigger] v[j])
    &&& forall|j: int| i < j < v.len() ==> text_lt(#[trigger] v[j], v[i])
}

/// Index of the latest period: the greatest name, the last among equal ones.
pub fn latest_period_index(periods: &[String]) -> (r: Option<usize>)
    ensures
        periods@.len() == 0 ==> r is None,
        periods@.len() > 0 ==> (r matches Some(i) && is_latest(strings_view(periods@), i as int)),
{
    if periods.len() == 0 {
        return None;
    }
    let ghost v = strings_view(periods@);
    let mut best: usize = 0;
    let mut i: usize = 1;
    proof {
        lemma_text_lt_irrefl(v[0]);
    }
    while i < periods.len()
        invariant
            1 <= i <= periods@.len(),
            v == strings_view(periods@),
            best < i,
            forall|j: int| 0 <= j < i ==> !text_lt(v[best as int], #[trigger] v[j]),
            forall|j: int| best < j < i ==> text_lt(#[trigger] v[j], v[best as int]),
        decreases periods.len() - i,
    {
        let bv = to_chars(periods[best].as_str());
        let iv = to_chars(periods[i].as_str());
        if !chars_lt(&iv, &bv) {
            proof {
                assert forall|j: int| 0 <= j < i + 1 implies !text_lt(v[i as int], #[trigger] v[j]) by {
                    lemma_text_lt_total(v[i as int], v[best as int]);
                    lemma_text_lt_trans(v[best as int], v[i as int], v[j]);
                    lemma_text_lt_irrefl(v[i as int]);
                }
            }
            best = i;
        } else {
            proof {
                lemma_text_lt_asym(v[i as int], v[best as int]);
            }
        }
        i = i + 1;
    }
    Some(best)
}

/// The disclosure of non-cash reclassifications: one bulleted item a line.
pub open spec fn bullet_list(items: Seq<Seq<char>>) -> Seq<char> {
    join(Seq::new(items.len(), |k: int| "• "@ + items[k]), "\n"@)
}

/// The value of every placeholder of the template: the period header, the
/// horizontal rule over the columns, each amount row, and the disclosure.
pub open spec fn placeholder_values(
    layout: ReportLayout,
    periods: Seq<Seq<char>>,
    rows: Seq<(Seq<char>, Seq<Seq<char>>)>,
    reclassifications: Seq<Seq<char>>,
) -> Seq<(Seq<char>, Seq<char>)> {
    seq![("period"@, columns_text(periods, layout)), ("hr_ext"@, repeat_char(HR_CHAR, rendered_width(layout) as nat))]
        + Seq::new(rows.len(), |k: int| (rows[k].0, columns_text(rows[k].1, layout)))
        + seq![("non_cash_reclassifications"@, bullet_list(reclassifications))]
}

/// The values of the placeholders for the given layout, period names,
/// rendered amount rows (one value per period) and the reclassifications
/// disclosed for the latest period.
pub fn build_placeholder_map(
    layout: &ReportLayout,
    periods: &[String],
    rows: &[(String, Vec<String>)],
    reclassifications: &[String],
) -> (r: Vec<(String, String)>)
    requires
        layout_fits(*layout),
    ensures
        Seq::new(r@.len(), |k: int| (r@[k].0@, r@[k].1@)) == placeholder_values(
            *layout,
            strings_view(periods@),
            Seq::new(rows@.len(), |k: int| (rows@[k].0@, strings_view(rows@[k].1@))),
            strings_view(reclassifications@),
        ),
{
    let mut out: Vec<(String, String)> = Vec::new();
    out.push(("period".to_owned(), format_columns(periods, layout)));
    assert(Seq::new(periods@.len(), |k: int| periods@[k]@) =~= strings_view(periods@));
    let mut hr: Vec<char> = Vec::new();
    push_repeat(&mut hr, HR_CHAR, layout.rendered_columns_width());
    out.push(("hr_ext".to_owned(), chars_to_string(&hr)));
    let ghost rv = Seq::new(rows@.len(), |k: int| (rows@[k].0@, strings_view(rows@[k].1@)));
    let mut i: usize = 0;
    while i < rows.len()
        invariant
            i <= rows@.len(),
            out@.len() == 2 + i,
            out@[0].0@ == "period"@,
            out@[0].1@ == columns_text(strings_view(periods@), *layout),
            out@[1].0@ == "hr_ext"@,
            out@[1].1@ == repeat_char(HR_CHAR, rendered_width(*layout) as nat),
            forall|k: int|
                0 <= k < i ==> (#[trigger] out@[2 + k]).0@ == rows@[k].0@ && out@[2 + k].1@
                    == columns_text(strings_view(rows@[k].1@), *layout),
        decreases rows.len() - i,
    {
        let cols = format_columns(rows[i].1.as_slice(), layout);
        assert(Seq::new(rows@[i as int].1@.len(), |k: int| rows@[i as int].1@[k]@) =~= strings_view(
            rows@[i as int].1@,
        ));
        out.push((rows[i].0.clone(), cols));
        i = i + 1;
    }
    let mut items: Vec<Vec<char>> = Vec::new();
    let mut j: usize = 0;
    while j < reclassifications.len()
        invariant
            j <= reclassifications@.len(),
            items@.len() == j,
            forall|k: int|
                0 <= k < j ==> #[trigger] items@[k]@ == "• "@ + reclassifications@[k]@,
        decreases reclassifications.len() - j,
    {
        let mut item = to_chars("• ");
        push_all(&mut item, &to_chars(reclassifications[j].as_str()));
        items.push(item);
        j = j + 1;
    }
    let text = join_chars(&items, &to_chars("\n"));
    assert(Seq::new(items@.len(), |k: int| items@[k]@) =~= Seq::new(
        reclassifications@.len(),
        |k: int| "• "@ + strings_view(reclassifications@)[k],
    ));
    out.push(("non_cash_reclassifications".to_owned(), chars_to_string(&text)));
    let ghost pv = placeholder_values(
        *layout,
        strings_view(periods@),
        rv,
        strings_view(reclassifications@),
    );
    assert(pv.len() == out@.len());
    assert forall|k: int| 0 <= k < out@.len() implies (out@[k].0@, out@[k].1@) == pv[k] by {
        if 2 <= k < 2 + rows@.len() {
            assert(out@[2 + (k - 2)].0@ == rows@[k - 2].0@);
        }
    }
    assert(Seq::new(out@.len(), |k: int| (out@[k].0@, out@[k].1@)) =~= placeholder_values(
        *layout,
        strings_view(periods@),
        rv,
        strings_view(reclassifications@),
    ));
    out
}


// Non-cash reclassifications, from register reports.
// ---------------------------------------------------------------------------

/// The pieces of `s` between runs of four or more whitespace characters,
/// as the regex crate's `Regex::split` with `\s{4,}` yields them.
pub uninterp spec fn wide_gap_split(s: Seq<char>) -> Seq<Seq<char>>;

/// `Regex::split` with the pattern `\s{4,}`.
#[verifier::external_body]
fn split_at_wide_gaps(s: &str) -> (r: Vec<String>)
    ensures
        strings_view(r@) == wide_gap_split(s@),
{
    let re = regex::Regex::new(r"\s{4,}").unwrap();
    re.split(s).map(|piece| piece.to_string()).collect()
}

/// The sections of a register line: its pieces between wide gaps, blank
/// ones left out.
pub open spec fn sections(s: Seq<char>) -> Seq<Seq<char>> {
    wide_gap_split(s).filter(|p: Seq<char>| trim(p).len() > 0)
}

/// The sections of a register line.
pub fn split_sections(s: &str) -> (r: Vec<String>)
    ensures
        strings_view(r@) == sections(s@),
{
    let parts = split_at_wide_gaps(s);
    let ghost pv = strings_view(parts@);
    let mut out: Vec<String> = Vec::new();
    let mut i: usize = 0;
    while i < parts.len()
        invariant
            i <= parts@.len(),
            pv == strings_view(parts@),
            pv == wide_gap_split(s@),
            strings_view(out@) == pv.take(i as int).filter(|p: Seq<char>| trim(p).len() > 0),
        decreases parts.len() - i,
    {
        proof {
            assert(pv.take(i + 1).drop_last() == pv.take(i as int));
            pv.take(i as int).lemma_filter_push(pv[i as int], |p: Seq<char>| trim(p).len() > 0);
            assert(pv.take(i as int).push(pv[i as int]) == pv.take(i + 1));
        }
        let t = trim_chars(&to_chars(parts[i].as_str()));
        if t.len() > 0 {
            let ghost before = out@;
            out.push(parts[i].clone());
            assert(strings_view(out@) =~= strings_view(before).push(pv[i as int]));
        }
        i = i + 1;
    }
    assert(pv.take(pv.len() as int) == pv);
    out
}

/// Section `i` of a line, or nothing.
pub open spec fn section_or_empty(secs: Seq<Seq<char>>, i: int) -> Seq<char> {
    if 0 <= i < secs.len() {
        secs[i]
    } else {
        Seq::empty()
    }
}

/// A reclassification as disclosed: the description of the source posting,
/// then the source and destination accounts, each with its amount.
pub open spec fn reclassification_text(source: Seq<char>, dest: Seq<char>) -> Seq<char> {
    let s = sections(source);
    let d = sections(dest);
    section_or_empty(s, 0) + "\n    "@ + pad_right(section_or_empty(s, 1), 57) + " "@ + right_align(
        section_or_empty(s, 2),
        17,
    ) + "\n    "@ + pad_right(section_or_empty(d, 1), 57) + " "@ + right_align(
        section_or_empty(d, 2),
        17,
    )
}

fn section_chars(secs: &Vec<String>, i: usize) -> (r: Vec<char>)
    ensures
        r@ == section_or_empty(strings_view(secs@), i as int),
{
    if i < secs.len() {
        to_chars(secs[i].as_str())
    } else {
        Vec::new()
    }
}

fn push_padded_right(out: &mut Vec<char>, s: &[char], w: usize)
    ensures
        final(out)@ == old(out)@ + pad_right(s@, w as nat),
{
    push_all(out, s);
    if s.len() < w {
        push_repeat(out, ' ', w - s.len());
    } else {
        push_repeat(out, ' ', 0);
    }
}

fn push_aligned_right(out: &mut Vec<char>, s: &[char], w: usize)
    ensures
        final(out)@ == old(out)@ + right_align(s@, w as nat),
{
    if s.len() < w {
        push_repeat(out, ' ', w - s.len());
    } else {
        push_repeat(out, ' ', 0);
    }
    push_all(out, s);
}

/// The disclosure of one reclassification, from the matching lines of the
/// register reports of its source and of its destination postings.
pub fn format_reclassification(source: &str, dest: &str) -> (r: String)
    ensures
        r@ == reclassification_text(source@, dest@),
{
    let s = split_sections(source);
    let d = split_sections(dest);
    let mut out = section_chars(&s, 0);
    push_all(&mut out, &to_chars("\n    "));
    push_padded_right(&mut out, &section_chars(&s, 1), 57);
    push_all(&mut out, &to_chars(" "));
    push_aligned_right(&mut out, &section_chars(&s, 2), 17);
    push_all(&mut out, &to_chars("\n    "));
    push_padded_right(&mut out, &section_chars(&d, 1), 57);
    push_all(&mut out, &to_chars(" "));
    push_aligned_right(&mut out, &section_chars(&d, 2), 17);
    chars_to_string(&out)
}

/// The reclassifications of a period: the lines of the source and the
/// destination register reports taken in pairs, as far as both go.
pub fn non_cash_reclassifications(source_lines: &[String], dest_lines: &[String]) -> (r: Vec<String>)
    ensures
        r@.len() == if source_lines@.len() < dest_lines@.len() {
            source_lines@.len()
        } else {
            dest_lines@.len()
        },
        forall|k: int| 0 <= k < r@.len() ==> #[trigger] r@[k]@ == reclassification_text(source_lines@[k]@, dest_lines@[k]@),
{
    let mut out: Vec<String> = Vec::new();
    let mut i: usize = 0;
    while i < source_lines.len() && i < dest_lines.len()
        invariant
            i <= source_lines@.len(),
            i <= dest_lines@.len(),
            out@.len() == i,
            forall|k: int| 0 <= k < i ==> #[trigger] out@[k]@ == reclassification_text(source_lines@[k]@, dest_lines@[k]@),
        decreases source_lines.len() - i,
    {
        out.push(format_reclassification(source_lines[i].as_str(), dest_lines[i].as_str()));
        i = i + 1;
    }
    out
}


// The statement template and its periods.
// ---------------------------------------------------------------------------

/// The keys of the amount rows of the statement template, in order.
pub open spec fn amount_keys() -> Seq<Seq<char>> {
    seq![
        "net_income"@,
        "nce_depreciation"@,
        "nce_amortization"@,
        "nce_other"@,
        "diff_accounts_receivable"@,
        "diff_inventory"@,
        "diff_prepaid_expenses"@,
        "diff_other_current_assets"@,
        "diff_accounts_payable"@,
        "diff_accrued_expenses"@,
        "diff_deferred_revenue"@,
        "diff_other_current_liabilities"@,
        "gain_loss_sale_assets"@,
        "net_operating"@,
        "out_ppe"@,
        "out_intangible_assets"@,
        "out_investment_securities"@,
        "out_long_term_deposits"@,
        "out_other_investing"@,
        "in_ppe"@,
        "in_intangible_assets"@,
        "in_investment_securities"@,
        "in_long_term_deposits"@,
        "in_other_investing"@,
        "net_investing"@,
        "in_borrowings"@,
        "out_borrowings"@,
        "net_issuance_shares"@,
        "out_share_buybacks"@,
        "out_dividends"@,
        "in_out_other_financing"@,
        "net_financing"@,
        "balance_opening"@,
        "balance_change"@,
        "balance_before_exchange"@,
        "exchange_rate_effects"@,
        "balance_closing"@
    ]
}

fn push_key(v: &mut Vec<String>, k: &str)
    ensures
        strings_view(final(v)@) == strings_view(old(v)@).push(k@),
{
    v.push(k.to_string());
    assert(strings_view(v@) =~= strings_view(old(v)@).push(k@));
}

/// The keys of the amount rows of the statement template, in order.
pub fn placeholder_keys() -> (r: Vec<String>)
    ensures
        strings_view(r@) == amount_keys(),
{
    let mut v: Vec<String> = Vec::new();
    assert(strings_view(v@) =~= Seq::<Seq<char>>::empty());
    push_key(&mut v, "net_income");
    push_key(&mut v, "nce_depreciation");
    push_key(&mut v, "nce_amortization");
    push_key(&mut v, "nce_other");
    push_key(&mut v, "diff_accounts_receivable");
    push_key(&mut v, "diff_inventory");
    push_key(&mut v, "diff_prepaid_expenses");
    push_key(&mut v, "diff_other_current_assets");
    push_key(&mut v, "diff_accounts_payable");
    push_key(&mut v, "diff_accrued_expenses");
    push_key(&mut v, "diff_deferred_revenue");
    push_key(&mut v, "diff_other_current_liabilities");
    push_key(&mut v, "gain_loss_sale_assets");
    push_key(&mut v, "net_operating");
    push_key(&mut v, "out_ppe");
    push_key(&mut v, "out_intangible_assets");
    push_key(&mut v, "out_investment_securities");
    push_key(&mut v, "out_long_term_deposits");
    push_key(&mut v, "out_other_investing");
    push_key(&mut v, "in_ppe");
    push_key(&mut v, "in_intangible_assets");
    push_key(&mut v, "in_investment_securities");
    push_key(&mut v, "in_long_term_deposits");
    push_key(&mut v, "in_other_investing");
    push_key(&mut v, "net_investing");
    push_key(&mut v, "in_borrowings");
    push_key(&mut v, "out_borrowings");
    push_key(&mut v, "net_issuance_shares");
    push_key(&mut v, "out_share_buybacks");
    push_key(&mut v, "out_dividends");
    push_key(&mut v, "in_out_other_financing");
    push_key(&mut v, "net_financing");
    push_key(&mut v, "balance_opening");
    push_key(&mut v, "balance_change");
    push_key(&mut v, "balance_before_exchange");
    push_key(&mut v, "exchange_rate_effects");
    push_key(&mut v, "balance_closing");
    assert(strings_view(v@) =~= amount_keys());
    v
}

/// The periods of a statement, of which there must be at least one.
pub fn check_periods(periods: Vec<String>) -> (r: Result<Vec<String>, Error>)
    ensures
        periods@.len() == 0 ==> r == Err::<Vec<String>, Error>(Error::InvalidCashFlowStatementPeriods),
        periods@.len() > 0 ==> (r matches Ok(v) && v@ == periods@),
{
    if periods.len() == 0 {
        Err(Error::InvalidCashFlowStatementPeriods)
    } else {
        Ok(periods)
    }
}

} // verus!
