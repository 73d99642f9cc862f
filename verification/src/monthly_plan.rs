//! The journal entries of amounts that accrue month by month: fixed
//! expenses, and the amortization of an asset. Each month's adjustment
//! carries its own part of the amount; the caller works out the parts and
//! writes them in.
use vstd::prelude::*;

use crate::account::{Account, ExpenseAccount};
use crate::date::{date_le, iso_text, Date, MonthlyAccrualPeriod};
use crate::errors::Error;
use crate::posting_plan::Side;

verus! {

/// Which part of the amount a posting moves.
#[derive(Debug, Clone, Copy, PartialEq, Eq, Structural)]
pub enum Portion {
    /// The whole amount.
    Whole,
    /// The adjustment of the `k`-th month.
    Period(usize),
    /// The adjustments of the months that were paid ahead.
    PrepaidPart,
    /// The adjustments of the months that were owed until paid.
    PayablePart,
    /// What was paid beyond the estimate (less, when negative).
    Discrepancy,
}

/// A posting of a part of the amount.
#[derive(Debug, Clone)]
pub struct PortionPosting {
    pub account: Account,
    pub source_account: Option<Account>,
    pub portion: Portion,
    pub side: Side,
}

/// A journal entry whose postings move parts of the amount.
#[derive(Debug)]
pub struct PortionEntry {
    pub date: Date,
    pub comment: String,
    pub postings: Vec<PortionPosting>,
}

/// A portion entry as its date, comment and postings.
pub struct PortionEntryView {
    pub date: Date,
    pub comment: Seq<char>,
    pub postings: Seq<PortionPosting>,
}

impl View for PortionEntry {
    type V = PortionEntryView;

    open spec fn view(&self) -> PortionEntryView {
        PortionEntryView { date: self.date, comment: self.comment@, postings: self.postings@ }
    }
}

/// The entries of `v`, each by its view.
pub open spec fn portion_entries_view(v: Seq<PortionEntry>) -> Seq<PortionEntryView> {
    Seq::new(v.len(), |k: int| v[k]@)
}

/// A posting of part `portion` on side `side`.
pub open spec fn part(account: Account, portion: Portion, side: Side) -> PortionPosting {
    PortionPosting { account, source_account: None, portion, side }
}

/// A posting of part `portion` on side `side`, linked to `source`.
pub open spec fn linked_part(account: Account, source: Account, portion: Portion, side: Side) -> PortionPosting {
    PortionPosting { account, source_account: Some(source), portion, side }
}

/// `prefix`, then the month's period written `start - end`.
pub open spec fn period_comment(prefix: Seq<char>, p: MonthlyAccrualPeriod) -> Seq<char> {
    prefix + iso_text(p.period_start) + " - "@ + iso_text(p.period_end)
}

/// Whether the adjustment of a month is recorded by the payment date: it is
/// then owed until paid; otherwise it was paid ahead.
pub open spec fn owed_when_accrued(p: MonthlyAccrualPeriod, payment: Date) -> bool {
    date_le(p.adjustment_date, payment)
}

/// Whether the adjustment of month `p` is owed until the payment on
/// `payment` (else it was paid ahead).
pub fn is_owed(p: &MonthlyAccrualPeriod, payment: &Date) -> (r: bool)
    ensures
        r == owed_when_accrued(*p, *payment),
{
    p.adjustment_date.is_on_or_before(payment)
}

/// The entry that accrues the `k`-th month of a fixed expense.
pub open spec fn fixed_expense_accrual(
    p: MonthlyAccrualPeriod,
    k: int,
    payment: Date,
    expense: Account,
    prepaid: Account,
    payable: Account,
) -> PortionEntryView {
    PortionEntryView {
        date: p.adjustment_date,
        comment: period_comment("Accrue fixed expense for "@, p),
        postings: seq![
            part(
                if owed_when_accrued(p, payment) {
                    payable
                } else {
                    prepaid
                },
                Portion::Period(k as usize),
                Side::Credit,
            ),
            part(expense, Portion::Period(k as usize), Side::Debit),
        ],
    }
}

/// The entry of the payment of a fixed expense: the whole amount leaves
/// `backing`; the months paid ahead go into `prepaid`, and the months owed
/// until now are cleared from `payable`.
pub open spec fn fixed_expense_clearing(
    payment: Date,
    expense: Account,
    prepaid: Account,
    payable: Account,
    backing: Account,
) -> PortionEntryView {
    PortionEntryView {
        date: payment,
        comment: "Clear / pre-pay fixed expense"@,
        postings: seq![
            part(backing, Portion::Whole, Side::Credit),
            linked_part(prepaid, expense, Portion::PrepaidPart, Side::Debit),
            linked_part(payable, expense, Portion::PayablePart, Side::Debit),
        ],
    }
}

/// The entries of a fixed expense accrued over `periods` and paid on
/// `payment`: one accrual a month, then the payment.
pub open spec fn fixed_expense_plan(
    periods: Seq<MonthlyAccrualPeriod>,
    payment: Date,
    expense: Account,
    prepaid: Account,
    payable: Account,
    backing: Account,
) -> Seq<PortionEntryView> {
    Seq::new(
        periods.len(),
        |k: int| fixed_expense_accrual(periods[k], k, payment, expense, prepaid, payable),
    ).push(fixed_expense_clearing(payment, expense, prepaid, payable, backing))
}

/// The entry that amortizes the `k`-th month of an asset.
pub open spec fn amortization_entry(
    p: MonthlyAccrualPeriod,
    k: int,
    asset: Account,
    accrual_account: Account,
) -> PortionEntryView {
    PortionEntryView {
        date: p.adjustment_date,
        comment: period_comment("Amortization adjustment for "@, p),
        postings: seq![
            part(asset, Portion::Period(k as usize), Side::Credit),
            part(accrual_account, Portion::Period(k as usize), Side::Debit),
        ],
    }
}

/// The entries that amortize an asset over `periods`, one a month.
pub open spec fn amortization_plan(
    periods: Seq<MonthlyAccrualPeriod>,
    asset: Account,
    accrual_account: Account,
) -> Seq<PortionEntryView> {
    Seq::new(periods.len(), |k: int| amortization_entry(periods[k], k, asset, accrual_account))
}

/// Double entry for parts: each part an entry moves is credited exactly
/// where it is debited, as often.
pub open spec fn portion_balanced(e: PortionEntryView) -> bool {
    forall|q: Portion|
        #![trigger portion_count(e.postings, q, Side::Debit)]
        portion_count(e.postings, q, Side::Debit) == portion_count(e.postings, q, Side::Credit)
}

/// How many postings of `ps` move part `q` on side `side`.
pub open spec fn portion_count(ps: Seq<PortionPosting>, q: Portion, side: Side) -> nat
    decreases ps.len(),
{
    if ps.len() == 0 {
        0
    } else {
        portion_count(ps.drop_last(), q, side) + if ps.last().portion == q && ps.last().side
            == side {
            1nat
        } else {
            0nat
        }
    }
}

proof fn lemma_pair_portion_balanced(p: PortionPosting, q: PortionPosting, e: PortionEntryView)
    requires
        e.postings == seq![p, q],
        p.portion == q.portion,
        p.side != q.side,
    ensures
        portion_balanced(e),
{
    assert forall|x: Portion| #[trigger]
        portion_count(e.postings, x, Side::Debit) == portion_count(e.postings, x, Side::Credit) by {
        reveal_with_fuel(portion_count, 3);
        assert(e.postings.drop_last() == seq![p]);
        assert(seq![p].drop_last() == Seq::<PortionPosting>::empty());
    }
}

// What the parts come to.
// ---------------------------------------------------------------------------

/// The sum of the monthly adjustments `adj`.
pub open spec fn adjustments_total(adj: Seq<int>) -> int
    decreases adj.len(),
{
    if adj.len() == 0 {
        0
    } else {
        adjustments_total(adj.drop_last()) + adj.last()
    }
}

/// The sum of the adjustments of the months whose flag in `owed` is `which`.
pub open spec fn flagged_total(adj: Seq<int>, owed: Seq<bool>, which: bool) -> int
    decreases adj.len(),
{
    if adj.len() == 0 {
        0
    } else {
        flagged_total(adj.drop_last(), owed.drop_last(), which) + if owed[adj.len() - 1] == which {
            adj.last()
        } else {
            0
        }
    }
}

/// For each month, whether its adjustment is owed until the payment.
pub open spec fn months_owed(periods: Seq<MonthlyAccrualPeriod>, payment: Date) -> Seq<bool> {
    Seq::new(periods.len(), |k: int| owed_when_accrued(periods[k], payment))
}

/// What part `q` comes to when the months' adjustments are `adj` (their sum
/// being the whole amount), `owed` tells which months are owed, and `d` is
/// the discrepancy.
pub open spec fn portion_value(q: Portion, adj: Seq<int>, owed: Seq<bool>, d: int) -> int {
    match q {
        Portion::Whole => adjustments_total(adj),
        Portion::Period(k) => adj[k as int],
        Portion::PrepaidPart => flagged_total(adj, owed, false),
        Portion::PayablePart => flagged_total(adj, owed, true),
        Portion::Discrepancy => d,
    }
}

/// The sum of the postings of `ps`, debits counted positive and credits
/// negative.
pub open spec fn postings_total(ps: Seq<PortionPosting>, adj: Seq<int>, owed: Seq<bool>, d: int) -> int
    decreases ps.len(),
{
    if ps.len() == 0 {
        0
    } else {
        postings_total(ps.drop_last(), adj, owed, d) + match ps.last().side {
            Side::Debit => portion_value(ps.last().portion, adj, owed, d),
            Side::Credit => -portion_value(ps.last().portion, adj, owed, d),
        }
    }
}

/// Double entry in amounts: the postings of the entry sum to zero.
pub open spec fn value_balanced(e: PortionEntryView, adj: Seq<int>, owed: Seq<bool>, d: int) -> bool {
    postings_total(e.postings, adj, owed, d) == 0
}

proof fn lemma_total_splits(adj: Seq<int>, owed: Seq<bool>)
    requires
        adj.len() == owed.len(),
    ensures
        adjustments_total(adj) == flagged_total(adj, owed, true) + flagged_total(adj, owed, false),
    decreases adj.len(),
{
    if adj.len() > 0 {
        lemma_total_splits(adj.drop_last(), owed.drop_last());
    }
}

/// Double entry for a fixed expense: whatever the months' adjustments, each
/// entry of its plan sums to zero, the payment entry included, where the
/// whole amount paid is what the months paid ahead and the months owed come
/// to.
pub proof fn lemma_fixed_expense_plan_balanced(
    periods: Seq<MonthlyAccrualPeriod>,
    payment: Date,
    expense: Account,
    prepaid: Account,
    payable: Account,
    backing: Account,
    adj: Seq<int>,
)
    requires
        adj.len() == periods.len(),
    ensures
        forall|k: int|
            0 <= k < periods.len() + 1 ==> #[trigger] value_balanced(
                fixed_expense_plan(periods, payment, expense, prepaid, payable, backing)[k],
                adj,
                months_owed(periods, payment),
                0,
            ),
{
    let plan = fixed_expense_plan(periods, payment, expense, prepaid, payable, backing);
    let owed = months_owed(periods, payment);
    reveal_with_fuel(postings_total, 4);
    assert forall|k: int| 0 <= k < periods.len() + 1 implies #[trigger] value_balanced(plan[k], adj, owed, 0) by {
        let ps = plan[k].postings;
        if k < periods.len() {
            assert(ps.drop_last() =~= seq![ps[0]]);
            assert(ps.drop_last().drop_last() =~= Seq::<PortionPosting>::empty());
        } else {
            lemma_total_splits(adj, owed);
            assert(ps.drop_last() =~= seq![ps[0], ps[1]]);
            assert(ps.drop_last().drop_last() =~= seq![ps[0]]);
            assert(ps.drop_last().drop_last().drop_last() =~= Seq::<PortionPosting>::empty());
        }
    }
}

fn iso_comment(prefix: &str, p: &MonthlyAccrualPeriod) -> (r: String)
    ensures
        r@ == period_comment(prefix@, *p),
{
    let mut s = String::new();
    s.append(prefix);
    s.append(p.period_start.to_iso_string().as_str());
    s.append(" - ");
    s.append(p.period_end.to_iso_string().as_str());
    s
}

fn portion_pair(first: PortionPosting, second: PortionPosting) -> (r: Vec<PortionPosting>)
    ensures
        r@ == seq![first, second],
{
    let mut v: Vec<PortionPosting> = Vec::new();
    v.push(first);
    v.push(second);
    v
}

/// The entries of a fixed expense accrued over `periods` and paid on
/// `payment` from `backing`; the months accrued by the payment date are
/// owed in `payable`, the later ones are paid ahead into `prepaid`.
pub fn plan_fixed_expense(
    periods: &[MonthlyAccrualPeriod],
    payment: Date,
    expense: Account,
    prepaid: Account,
    payable: Account,
    backing: Account,
) -> (r: Vec<PortionEntry>)
    ensures
        portion_entries_view(r@) == fixed_expense_plan(
            periods@,
            payment,
            expense,
            prepaid,
            payable,
            backing,
        ),
        forall|adj: Seq<int>, k: int|
            adj.len() == periods@.len() && 0 <= k < r@.len() ==> #[trigger] value_balanced(
                portion_entries_view(r@)[k],
                adj,
                months_owed(periods@, payment),
                0,
            ),
{
    let mut out: Vec<PortionEntry> = Vec::new();
    let mut i: usize = 0;
    while i < periods.len()
        invariant
            i <= periods@.len(),
            out@.len() == i,
            forall|k: int| 0 <= k < i ==> #[trigger] out@[k]@ == fixed_expense_accrual(
                periods@[k],
                k,
                payment,
                expense,
                prepaid,
                payable,
            ),
        decreases periods.len() - i,
    {
        let p = &periods[i];
        let holding = if is_owed(p, &payment) {
            payable.duplicate()
        } else {
            prepaid.duplicate()
        };
        let postings = portion_pair(
            PortionPosting {
                account: holding,
                source_account: None,
                portion: Portion::Period(i),
                side: Side::Credit,
            },
            PortionPosting {
                account: expense.duplicate(),
                source_account: None,
                portion: Portion::Period(i),
                side: Side::Debit,
            },
        );
        out.push(
            PortionEntry {
                date: p.adjustment_date,
                comment: iso_comment("Accrue fixed expense for ", p),
                postings,
            },
        );
        i = i + 1;
    }
    let mut clearing: Vec<PortionPosting> = Vec::new();
    clearing.push(
        PortionPosting { account: backing, source_account: None, portion: Portion::Whole, side: Side::Credit },
    );
    clearing.push(
        PortionPosting {
            account: prepaid,
            source_account: Some(expense.duplicate()),
            portion: Portion::PrepaidPart,
            side: Side::Debit,
        },
    );
    clearing.push(
        PortionPosting {
            account: payable,
            source_account: Some(expense),
            portion: Portion::PayablePart,
            side: Side::Debit,
        },
    );
    assert(clearing@ == fixed_expense_clearing(payment, expense, prepaid, payable, backing).postings);
    let ghost before = out@;
    out.push(
        PortionEntry {
            date: payment,
            comment: "Clear / pre-pay fixed expense".to_string(),
            postings: clearing,
        },
    );
    proof {
        let es = portion_entries_view(out@);
        assert forall|k: int| 0 <= k < periods@.len() implies #[trigger] es[k] == fixed_expense_accrual(
            periods@[k],
            k,
            payment,
            expense,
            prepaid,
            payable,
        ) by {
            assert(out@[k] == before[k]);
        }
        assert(es[periods@.len() as int] == fixed_expense_clearing(payment, expense, prepaid, payable, backing));
        assert(es =~= fixed_expense_plan(periods@, payment, expense, prepaid, payable, backing));
        assert forall|adj: Seq<int>, k: int|
            adj.len() == periods@.len() && 0 <= k < es.len() implies #[trigger] value_balanced(
                es[k],
                adj,
                months_owed(periods@, payment),
                0,
            ) by {
            lemma_fixed_expense_plan_balanced(periods@, payment, expense, prepaid, payable, backing, adj);
        }
    }
    out
}

/// The account into which an asset is amortized; an asset that is not
/// written off over time cannot be amortized.
pub fn amortization_account(upon_accrual: Option<ExpenseAccount>, description: &str) -> (r: Result<
    ExpenseAccount,
    Error,
>)
    ensures
        match upon_accrual {
            Some(a) => r == Ok::<ExpenseAccount, Error>(a),
            None => r matches Err(Error::NonAmortizableAsset { description: d }) && d@ == description@,
        },
{
    match upon_accrual {
        Some(a) => Ok(a),
        None => Err(Error::NonAmortizableAsset { description: description.to_string() }),
    }
}

/// The monthly entries that amortize `asset` into `accrual_account` over
/// `periods`.
pub fn plan_amortization(periods: &[MonthlyAccrualPeriod], asset: Account, accrual_account: Account) -> (r:
    Vec<PortionEntry>)
    ensures
        portion_entries_view(r@) == amortization_plan(periods@, asset, accrual_account),
        forall|k: int| 0 <= k < r@.len() ==> portion_balanced(#[trigger] portion_entries_view(r@)[k]),
{
    let mut out: Vec<PortionEntry> = Vec::new();
    let mut i: usize = 0;
    while i < periods.len()
        invariant
            i <= periods@.len(),
            out@.len() == i,
            forall|k: int| 0 <= k < i ==> #[trigger] out@[k]@ == amortization_entry(
                periods@[k],
                k,
                asset,
                accrual_account,
            ),
        decreases periods.len() - i,
    {
        let p = &periods[i];
        let postings = portion_pair(
            PortionPosting {
                account: asset.duplicate(),
                source_account: None,
                portion: Portion::Period(i),
                side: Side::Credit,
            },
            PortionPosting {
                account: accrual_account.duplicate(),
                source_account: None,
                portion: Portion::Period(i),
                side: Side::Debit,
            },
        );
        out.push(
            PortionEntry {
                date: p.adjustment_date,
                comment: iso_comment("Amortization adjustment for ", p),
                postings,
            },
        );
        i = i + 1;
    }
    proof {
        let es = portion_entries_view(out@);
        assert(es =~= amortization_plan(periods@, asset, accrual_account));
        assert forall|k: int| 0 <= k < es.len() implies portion_balanced(#[trigger] es[k]) by {
            lemma_pair_portion_balanced(es[k].postings[0], es[k].postings[1], es[k]);
        }
    }
    out
}

// Variable expenses.
// ---------------------------------------------------------------------------

/// The entries of a variable expense estimated over `periods` and paid on
/// `payment` from `backing`: each month's estimate is owed in `payable`;
/// on payment, the difference from the estimate is booked when there is one
/// (`corrected`), and the payable is cleared.
pub open spec fn variable_expense_plan(
    periods: Seq<MonthlyAccrualPeriod>,
    payment: Date,
    expense: Account,
    payable: Account,
    backing: Account,
    corrected: bool,
) -> Seq<PortionEntryView> {
    let estimates = Seq::new(
        periods.len(),
        |k: int|
            PortionEntryView {
                date: periods[k].adjustment_date,
                comment: period_comment("Estimated expense accrual for "@, periods[k]),
                postings: seq![
                    part(payable, Portion::Period(k as usize), Side::Credit),
                    part(expense, Portion::Period(k as usize), Side::Debit),
                ],
            },
    );
    let correction = PortionEntryView {
        date: payment,
        comment: "Correct estimate discrepancy"@,
        postings: seq![
            part(payable, Portion::Discrepancy, Side::Credit),
            part(expense, Portion::Discrepancy, Side::Debit),
        ],
    };
    let clearing = PortionEntryView {
        date: payment,
        comment: "Clear payable expense"@,
        postings: seq![
            part(backing, Portion::Whole, Side::Credit),
            linked_part(payable, expense, Portion::Whole, Side::Debit),
        ],
    };
    if corrected {
        estimates.push(correction).push(clearing)
    } else {
        estimates.push(clearing)
    }
}

fn portion_entry(date: Date, comment: &str, first: PortionPosting, second: PortionPosting) -> (r: PortionEntry)
    ensures
        r@ == (PortionEntryView { date, comment: comment@, postings: seq![first, second] }),
{
    PortionEntry { date, comment: comment.to_string(), postings: portion_pair(first, second) }
}

/// The entries of a variable expense accrued over `periods` (which end on
/// `until`) and paid on `payment`; refused when it is paid before the
/// accrual is over, which would be paying ahead for an unknown amount.
pub fn plan_variable_expense(
    id: u64,
    description: &str,
    periods: &[MonthlyAccrualPeriod],
    until: Date,
    payment: Date,
    expense: Account,
    payable: Account,
    backing: Account,
    corrected: bool,
) -> (r: Result<Vec<PortionEntry>, Error>)
    ensures
        date_le(payment, until) ==> (r matches Err(Error::VariableExpenseInvalidPaymentDate {
            id: i,
            description: d,
            payment_date: p,
            until_date: u,
        }) && i == id && d@ == description@ && p == payment && u == until),
        !date_le(payment, until) ==> (r matches Ok(v) && portion_entries_view(v@)
            == variable_expense_plan(periods@, payment, expense, payable, backing, corrected)
            && forall|k: int| 0 <= k < v@.len() ==> portion_balanced(#[trigger] portion_entries_view(v@)[k])),
{
    if payment.is_on_or_before(&until) {
        return Err(
            Error::VariableExpenseInvalidPaymentDate {
                id,
                description: description.to_string(),
                payment_date: payment,
                until_date: until,
            },
        );
    }
    let mut out: Vec<PortionEntry> = Vec::new();
    let mut i: usize = 0;
    while i < periods.len()
        invariant
            i <= periods@.len(),
            out@.len() == i,
            forall|k: int| 0 <= k < i ==> #[trigger] out@[k]@ == variable_expense_plan(
                periods@,
                payment,
                expense,
                payable,
                backing,
                corrected,
            )[k],
        decreases periods.len() - i,
    {
        let p = &periods[i];
        out.push(
            PortionEntry {
                date: p.adjustment_date,
                comment: iso_comment("Estimated expense accrual for ", p),
                postings: portion_pair(
                    PortionPosting {
                        account: payable.duplicate(),
                        source_account: None,
                        portion: Portion::Period(i),
                        side: Side::Credit,
                    },
                    PortionPosting {
                        account: expense.duplicate(),
                        source_account: None,
                        portion: Portion::Period(i),
                        side: Side::Debit,
                    },
                ),
            },
        );
        i = i + 1;
    }
    let ghost before = out@;
    if corrected {
        out.push(
            portion_entry(
                payment,
                "Correct estimate discrepancy",
                PortionPosting {
                    account: payable.duplicate(),
                    source_account: None,
                    portion: Portion::Discrepancy,
                    side: Side::Credit,
                },
                PortionPosting {
                    account: expense.duplicate(),
                    source_account: None,
                    portion: Portion::Discrepancy,
                    side: Side::Debit,
                },
            ),
        );
    }
    let ghost middle = out@;
    out.push(
        portion_entry(
            payment,
            "Clear payable expense",
            PortionPosting { account: backing, source_account: None, portion: Portion::Whole, side: Side::Credit },
            PortionPosting {
                account: payable,
                source_account: Some(expense),
                portion: Portion::Whole,
                side: Side::Debit,
            },
        ),
    );
    proof {
        let plan = variable_expense_plan(periods@, payment, expense, payable, backing, corrected);
        let es = portion_entries_view(out@);
        assert forall|k: int| 0 <= k < es.len() implies #[trigger] es[k] == plan[k] by {
            if k < periods@.len() {
                assert(out@[k] == before[k]);
            } else if corrected && k == periods@.len() {
                assert(out@[k] == middle[k]);
            }
        }
        assert(es =~= plan);
        assert forall|k: int| 0 <= k < es.len() implies portion_balanced(#[trigger] es[k]) by {
            lemma_pair_portion_balanced(es[k].postings[0], es[k].postings[1], es[k]);
        }
    }
    Ok(out)
}

} // verus!
