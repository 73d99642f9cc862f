//! What the monthly entries do to the books, in amounts. Given the months'
//! adjustments, the discrepancy and the whole amount paid, the amount that
//! an account holds at the end of a day sums, over the entries dated on or
//! before it, what they debit it less what they credit it.
use vstd::prelude::*;

use crate::account::Account;
use crate::date::{date_le, Date, MonthlyAccrualPeriod};
use crate::monthly_plan::{
    adjustments_total, amortization_plan, fixed_expense_plan, flagged_total, months_owed,
    variable_expense_plan, Portion, PortionEntryView, PortionPosting,
};
use crate::posting_plan::Side;

verus! {

/// What part `q` comes to: the month's adjustment, the adjustments of the
/// months paid ahead or owed, the discrepancy, or the whole amount paid.
pub open spec fn part_amount(q: Portion, adj: Seq<int>, owed: Seq<bool>, disc: int, whole: int) -> int {
    match q {
        Portion::Whole => whole,
        Portion::Period(k) => adj[k as int],
        Portion::PrepaidPart => flagged_total(adj, owed, false),
        Portion::PayablePart => flagged_total(adj, owed, true),
        Portion::Discrepancy => disc,
    }
}

/// What a posting does to `a`: its part when it debits `a`, the part
/// negated when it credits it, else 0.
pub open spec fn part_effect(p: PortionPosting, a: Account, adj: Seq<int>, owed: Seq<bool>, disc: int, whole: int) -> int {
    if p.account == a {
        match p.side {
            Side::Debit => part_amount(p.portion, adj, owed, disc, whole),
            Side::Credit => -part_amount(p.portion, adj, owed, disc, whole),
        }
    } else {
        0
    }
}

pub open spec fn parts_effect(
    ps: Seq<PortionPosting>,
    a: Account,
    adj: Seq<int>,
    owed: Seq<bool>,
    disc: int,
    whole: int,
) -> int
    decreases ps.len(),
{
    if ps.len() == 0 {
        0
    } else {
        parts_effect(ps.drop_last(), a, adj, owed, disc, whole) + part_effect(ps.last(), a, adj, owed, disc, whole)
    }
}

/// What the first `n` entries of `es` dated on or before `d` do to `a`.
pub open spec fn amount_on(
    es: Seq<PortionEntryView>,
    a: Account,
    d: Date,
    adj: Seq<int>,
    owed: Seq<bool>,
    disc: int,
    whole: int,
    n: nat,
) -> int
    decreases n,
{
    if n == 0 {
        0
    } else {
        amount_on(es, a, d, adj, owed, disc, whole, (n - 1) as nat) + if date_le(es[n - 1].date, d) {
            parts_effect(es[n - 1].postings, a, adj, owed, disc, whole)
        } else {
            0
        }
    }
}

/// What `a` holds at the end of `d`, once all the entries `es` are booked.
pub open spec fn amount_held(
    es: Seq<PortionEntryView>,
    a: Account,
    d: Date,
    adj: Seq<int>,
    owed: Seq<bool>,
    disc: int,
    whole: int,
) -> int {
    amount_on(es, a, d, adj, owed, disc, whole, es.len())
}

/// The adjustments of the first `n` months whose adjustment date is on or
/// before `d`.
pub open spec fn accrued_by(periods: Seq<MonthlyAccrualPeriod>, adj: Seq<int>, d: Date, n: nat) -> int
    decreases n,
{
    if n == 0 {
        0
    } else {
        accrued_by(periods, adj, d, (n - 1) as nat) + if date_le(periods[n - 1].adjustment_date, d) {
            adj[n - 1]
        } else {
            0
        }
    }
}

/// The same, of the months whose flag in `owed` is `which`.
spec fn accrued_flagged_by(
    periods: Seq<MonthlyAccrualPeriod>,
    adj: Seq<int>,
    owed: Seq<bool>,
    which: bool,
    d: Date,
    n: nat,
) -> int
    decreases n,
{
    if n == 0 {
        0
    } else {
        accrued_flagged_by(periods, adj, owed, which, d, (n - 1) as nat) + if date_le(
            periods[n - 1].adjustment_date,
            d,
        ) && owed[n - 1] == which {
            adj[n - 1]
        } else {
            0
        }
    }
}

/// The adjustments of the first `n` months whose flag is `which`.
spec fn flag_upto(adj: Seq<int>, owed: Seq<bool>, which: bool, n: nat) -> int
    decreases n,
{
    if n == 0 {
        0
    } else {
        flag_upto(adj, owed, which, (n - 1) as nat) + if owed[n - 1] == which {
            adj[n - 1]
        } else {
            0
        }
    }
}

proof fn lemma_flag_upto_prefix(adj: Seq<int>, owed: Seq<bool>, which: bool, n: nat)
    requires
        n < adj.len(),
        n < owed.len(),
    ensures
        flag_upto(adj, owed, which, n) == flag_upto(adj.drop_last(), owed.drop_last(), which, n),
    decreases n,
{
    if n > 0 {
        lemma_flag_upto_prefix(adj, owed, which, (n - 1) as nat);
    }
}

proof fn lemma_flagged_total_upto(adj: Seq<int>, owed: Seq<bool>, which: bool)
    requires
        adj.len() == owed.len(),
    ensures
        flagged_total(adj, owed, which) == flag_upto(adj, owed, which, adj.len()),
    decreases adj.len(),
{
    if adj.len() > 0 {
        lemma_flagged_total_upto(adj.drop_last(), owed.drop_last(), which);
        lemma_flag_upto_prefix(adj, owed, which, (adj.len() - 1) as nat);
    }
}

proof fn lemma_adjustments_total_upto(adj: Seq<int>, owed: Seq<bool>)
    requires
        adj.len() == owed.len(),
    ensures
        adjustments_total(adj) == flag_upto(adj, owed, true, adj.len()) + flag_upto(adj, owed, false, adj.len()),
    decreases adj.len(),
{
    if adj.len() > 0 {
        lemma_adjustments_total_upto(adj.drop_last(), owed.drop_last());
        lemma_flag_upto_prefix(adj, owed, true, (adj.len() - 1) as nat);
        lemma_flag_upto_prefix(adj, owed, false, (adj.len() - 1) as nat);
    }
}

/// With every month of `owed` flagged as owed exactly when accrued by the
/// payment: on or after the payment, all owed months are accrued; before
/// it, no month paid ahead is, and every accrued month is owed.
proof fn lemma_owed_by_date(
    periods: Seq<MonthlyAccrualPeriod>,
    adj: Seq<int>,
    payment: Date,
    d: Date,
    n: nat,
)
    requires
        n <= periods.len(),
        adj.len() == periods.len(),
    ensures
        date_le(payment, d) ==> accrued_flagged_by(periods, adj, months_owed(periods, payment), true, d, n)
            == flag_upto(adj, months_owed(periods, payment), true, n),
        !date_le(payment, d) ==> accrued_flagged_by(periods, adj, months_owed(periods, payment), false, d, n)
            == 0,
        !date_le(payment, d) ==> accrued_flagged_by(periods, adj, months_owed(periods, payment), true, d, n)
            == accrued_by(periods, adj, d, n),
    decreases n,
{
    if n > 0 {
        lemma_owed_by_date(periods, adj, payment, d, (n - 1) as nat);
    }
}

proof fn lemma_parts_two(p: PortionPosting, q: PortionPosting, a: Account, adj: Seq<int>, owed: Seq<bool>, disc: int, whole: int)
    ensures
        parts_effect(seq![p, q], a, adj, owed, disc, whole) == part_effect(p, a, adj, owed, disc, whole) + part_effect(
            q,
            a,
            adj,
            owed,
            disc,
            whole,
        ),
{
    reveal_with_fuel(parts_effect, 3);
    assert(seq![p, q].drop_last() =~= seq![p]);
    assert(seq![p].drop_last() =~= Seq::<PortionPosting>::empty());
}

proof fn lemma_parts_three(
    p: PortionPosting,
    q: PortionPosting,
    r: PortionPosting,
    a: Account,
    adj: Seq<int>,
    owed: Seq<bool>,
    disc: int,
    whole: int,
)
    ensures
        parts_effect(seq![p, q, r], a, adj, owed, disc, whole) == part_effect(p, a, adj, owed, disc, whole)
            + part_effect(q, a, adj, owed, disc, whole) + part_effect(r, a, adj, owed, disc, whole),
{
    reveal_with_fuel(parts_effect, 4);
    assert(seq![p, q, r].drop_last() =~= seq![p, q]);
    assert(seq![p, q].drop_last() =~= seq![p]);
    assert(seq![p].drop_last() =~= Seq::<PortionPosting>::empty());
}

/// The months of a fixed expense, one by one: the expense takes each
/// month's adjustment on its adjustment date; the payable owes it when the
/// month is owed, the prepaid account gives it up when it was paid ahead.
proof fn lemma_fixed_expense_months(
    periods: Seq<MonthlyAccrualPeriod>,
    payment: Date,
    expense: Account,
    prepaid: Account,
    payable: Account,
    backing: Account,
    adj: Seq<int>,
    whole: int,
    d: Date,
    j: nat,
)
    requires
        adj.len() == periods.len(),
        periods.len() <= usize::MAX,
        j <= periods.len(),
        expense != prepaid,
        expense != payable,
        expense != backing,
        prepaid != payable,
        prepaid != backing,
        payable != backing,
    ensures
        amount_on(fixed_expense_plan(periods, payment, expense, prepaid, payable, backing), expense, d, adj, months_owed(periods, payment), 0, whole, j)
            == accrued_by(periods, adj, d, j),
        amount_on(fixed_expense_plan(periods, payment, expense, prepaid, payable, backing), payable, d, adj, months_owed(periods, payment), 0, whole, j)
            == -accrued_flagged_by(periods, adj, months_owed(periods, payment), true, d, j),
        amount_on(fixed_expense_plan(periods, payment, expense, prepaid, payable, backing), prepaid, d, adj, months_owed(periods, payment), 0, whole, j)
            == -accrued_flagged_by(periods, adj, months_owed(periods, payment), false, d, j),
        amount_on(fixed_expense_plan(periods, payment, expense, prepaid, payable, backing), backing, d, adj, months_owed(periods, payment), 0, whole, j)
            == 0,
    decreases j,
{
    if j > 0 {
        let es = fixed_expense_plan(periods, payment, expense, prepaid, payable, backing);
        let owed = months_owed(periods, payment);
        let k = j - 1;
        lemma_fixed_expense_months(periods, payment, expense, prepaid, payable, backing, adj, whole, d, (j - 1) as nat);
        let e = es[k];
        assert(e.date == periods[k].adjustment_date);
        assert(owed[k] == date_le(periods[k].adjustment_date, payment));
        assert((k as usize) as int == k);
        assert(e.postings[0].portion == Portion::Period(k as usize));
        assert(e.postings == seq![e.postings[0], e.postings[1]]);
        lemma_parts_two(e.postings[0], e.postings[1], expense, adj, owed, 0, whole);
        lemma_parts_two(e.postings[0], e.postings[1], payable, adj, owed, 0, whole);
        lemma_parts_two(e.postings[0], e.postings[1], prepaid, adj, owed, 0, whole);
        lemma_parts_two(e.postings[0], e.postings[1], backing, adj, owed, 0, whole);
    }
}

/// A fixed expense on the books: the expense is recognized month by month,
/// each month's adjustment on its adjustment date; the whole amount leaves
/// `backing` on the payment date; from the payment on nothing stays
/// payable, and before it nothing was paid ahead and all that was accrued
/// is owed. For four different accounts, months' adjustments `adj` and the
/// whole amount their sum.
pub proof fn lemma_fixed_expense_books(
    periods: Seq<MonthlyAccrualPeriod>,
    payment: Date,
    expense: Account,
    prepaid: Account,
    payable: Account,
    backing: Account,
    adj: Seq<int>,
    d: Date,
)
    requires
        adj.len() == periods.len(),
        periods.len() <= usize::MAX,
        expense != prepaid,
        expense != payable,
        expense != backing,
        prepaid != payable,
        prepaid != backing,
        payable != backing,
    ensures
        amount_held(fixed_expense_plan(periods, payment, expense, prepaid, payable, backing), expense, d, adj, months_owed(periods, payment), 0, adjustments_total(adj))
            == accrued_by(periods, adj, d, periods.len()),
        amount_held(fixed_expense_plan(periods, payment, expense, prepaid, payable, backing), backing, d, adj, months_owed(periods, payment), 0, adjustments_total(adj))
            == if date_le(payment, d) {
            -adjustments_total(adj)
        } else {
            0
        },
        date_le(payment, d) ==> amount_held(fixed_expense_plan(periods, payment, expense, prepaid, payable, backing), payable, d, adj, months_owed(periods, payment), 0, adjustments_total(adj))
            == 0,
        !date_le(payment, d) ==> amount_held(fixed_expense_plan(periods, payment, expense, prepaid, payable, backing), prepaid, d, adj, months_owed(periods, payment), 0, adjustments_total(adj))
            == 0,
        !date_le(payment, d) ==> amount_held(fixed_expense_plan(periods, payment, expense, prepaid, payable, backing), payable, d, adj, months_owed(periods, payment), 0, adjustments_total(adj))
            == -accrued_by(periods, adj, d, periods.len()),
{
    let es = fixed_expense_plan(periods, payment, expense, prepaid, payable, backing);
    let owed = months_owed(periods, payment);
    let whole = adjustments_total(adj);
    let n = periods.len();
    lemma_fixed_expense_months(periods, payment, expense, prepaid, payable, backing, adj, whole, d, n);
    lemma_owed_by_date(periods, adj, payment, d, n);
    lemma_flagged_total_upto(adj, owed, true);
    lemma_flagged_total_upto(adj, owed, false);
    let c = es[n as int];
    assert(c.postings == seq![c.postings[0], c.postings[1], c.postings[2]]);
    lemma_parts_three(c.postings[0], c.postings[1], c.postings[2], expense, adj, owed, 0, whole);
    lemma_parts_three(c.postings[0], c.postings[1], c.postings[2], backing, adj, owed, 0, whole);
    lemma_parts_three(c.postings[0], c.postings[1], c.postings[2], payable, adj, owed, 0, whole);
    lemma_parts_three(c.postings[0], c.postings[1], c.postings[2], prepaid, adj, owed, 0, whole);
    assert(amount_held(es, expense, d, adj, owed, 0, whole) == amount_on(es, expense, d, adj, owed, 0, whole, (n + 1) as nat));
}


proof fn lemma_all_accrued(periods: Seq<MonthlyAccrualPeriod>, adj: Seq<int>, owed: Seq<bool>, d: Date, j: nat)
    requires
        j <= periods.len(),
        forall|k: int| 0 <= k < periods.len() ==> date_le(#[trigger] periods[k].adjustment_date, d),
    ensures
        accrued_by(periods, adj, d, j) == flag_upto(adj, owed, true, j) + flag_upto(adj, owed, false, j),
    decreases j,
{
    if j > 0 {
        lemma_all_accrued(periods, adj, owed, d, (j - 1) as nat);
        assert(date_le(periods[j - 1].adjustment_date, d));
    }
}

proof fn lemma_amortization_months(
    periods: Seq<MonthlyAccrualPeriod>,
    asset: Account,
    accrual_account: Account,
    adj: Seq<int>,
    owed: Seq<bool>,
    disc: int,
    whole: int,
    d: Date,
    j: nat,
)
    requires
        adj.len() == periods.len(),
        periods.len() <= usize::MAX,
        j <= periods.len(),
        asset != accrual_account,
    ensures
        amount_on(amortization_plan(periods, asset, accrual_account), asset, d, adj, owed, disc, whole, j)
            == -accrued_by(periods, adj, d, j),
        amount_on(amortization_plan(periods, asset, accrual_account), accrual_account, d, adj, owed, disc, whole, j)
            == accrued_by(periods, adj, d, j),
    decreases j,
{
    if j > 0 {
        let es = amortization_plan(periods, asset, accrual_account);
        let k = j - 1;
        lemma_amortization_months(periods, asset, accrual_account, adj, owed, disc, whole, d, (j - 1) as nat);
        let e = es[k];
        assert(e.date == periods[k].adjustment_date);
        assert((k as usize) as int == k);
        assert(e.postings == seq![e.postings[0], e.postings[1]]);
        lemma_parts_two(e.postings[0], e.postings[1], asset, adj, owed, disc, whole);
        lemma_parts_two(e.postings[0], e.postings[1], accrual_account, adj, owed, disc, whole);
    }
}

/// An amortized asset on the books: each month, on its adjustment date, the
/// month's adjustment leaves the asset and is taken by the account it is
/// amortized into. For two different accounts.
pub proof fn lemma_amortization_books(
    periods: Seq<MonthlyAccrualPeriod>,
    asset: Account,
    accrual_account: Account,
    adj: Seq<int>,
    owed: Seq<bool>,
    disc: int,
    whole: int,
    d: Date,
)
    requires
        adj.len() == periods.len(),
        periods.len() <= usize::MAX,
        asset != accrual_account,
    ensures
        amount_held(amortization_plan(periods, asset, accrual_account), asset, d, adj, owed, disc, whole)
            == -accrued_by(periods, adj, d, periods.len()),
        amount_held(amortization_plan(periods, asset, accrual_account), accrual_account, d, adj, owed, disc, whole)
            == accrued_by(periods, adj, d, periods.len()),
{
    lemma_amortization_months(periods, asset, accrual_account, adj, owed, disc, whole, d, periods.len());
}

proof fn lemma_variable_expense_months(
    periods: Seq<MonthlyAccrualPeriod>,
    payment: Date,
    expense: Account,
    payable: Account,
    backing: Account,
    corrected: bool,
    adj: Seq<int>,
    owed: Seq<bool>,
    disc: int,
    whole: int,
    d: Date,
    j: nat,
)
    requires
        adj.len() == periods.len(),
        periods.len() <= usize::MAX,
        j <= periods.len(),
        expense != payable,
        expense != backing,
        payable != backing,
    ensures
        amount_on(variable_expense_plan(periods, payment, expense, payable, backing, corrected), expense, d, adj, owed, disc, whole, j)
            == accrued_by(periods, adj, d, j),
        amount_on(variable_expense_plan(periods, payment, expense, payable, backing, corrected), payable, d, adj, owed, disc, whole, j)
            == -accrued_by(periods, adj, d, j),
        amount_on(variable_expense_plan(periods, payment, expense, payable, backing, corrected), backing, d, adj, owed, disc, whole, j)
            == 0,
    decreases j,
{
    if j > 0 {
        let es = variable_expense_plan(periods, payment, expense, payable, backing, corrected);
        let k = j - 1;
        lemma_variable_expense_months(
            periods,
            payment,
            expense,
            payable,
            backing,
            corrected,
            adj,
            owed,
            disc,
            whole,
            d,
            (j - 1) as nat,
        );
        let e = es[k];
        assert(e.date == periods[k].adjustment_date);
        assert((k as usize) as int == k);
        assert(e.postings == seq![e.postings[0], e.postings[1]]);
        lemma_parts_two(e.postings[0], e.postings[1], expense, adj, owed, disc, whole);
        lemma_parts_two(e.postings[0], e.postings[1], payable, adj, owed, disc, whole);
        lemma_parts_two(e.postings[0], e.postings[1], backing, adj, owed, disc, whole);
    }
}

/// A variable expense on the books, estimated at `adj` a month and paid in
/// full (`whole`: the estimates and, when corrected, the discrepancy
/// `disc`): the expense takes each month's estimate on its adjustment date
/// and, corrected, the discrepancy on the payment date; the whole amount
/// leaves `backing` on the payment date; until then all that was accrued is
/// owed, and from then on, every month being accrued by the payment,
/// nothing is. For three different accounts.
pub proof fn lemma_variable_expense_books(
    periods: Seq<MonthlyAccrualPeriod>,
    payment: Date,
    expense: Account,
    payable: Account,
    backing: Account,
    corrected: bool,
    adj: Seq<int>,
    owed: Seq<bool>,
    disc: int,
    d: Date,
)
    requires
        adj.len() == periods.len(),
        periods.len() <= usize::MAX,
        expense != payable,
        expense != backing,
        payable != backing,
    ensures
        amount_held(
            variable_expense_plan(periods, payment, expense, payable, backing, corrected),
            expense,
            d,
            adj,
            owed,
            disc,
            adjustments_total(adj) + if corrected {
                disc
            } else {
                0
            },
        ) == accrued_by(periods, adj, d, periods.len()) + if corrected && date_le(payment, d) {
            disc
        } else {
            0
        },
        amount_held(
            variable_expense_plan(periods, payment, expense, payable, backing, corrected),
            backing,
            d,
            adj,
            owed,
            disc,
            adjustments_total(adj) + if corrected {
                disc
            } else {
                0
            },
        ) == if date_le(payment, d) {
            -(adjustments_total(adj) + if corrected {
                disc
            } else {
                0
            })
        } else {
            0
        },
        !date_le(payment, d) ==> amount_held(
            variable_expense_plan(periods, payment, expense, payable, backing, corrected),
            payable,
            d,
            adj,
            owed,
            disc,
            adjustments_total(adj) + if corrected {
                disc
            } else {
                0
            },
        ) == -accrued_by(periods, adj, d, periods.len()),
        date_le(payment, d) && (forall|k: int|
            0 <= k < periods.len() ==> date_le(#[trigger] periods[k].adjustment_date, payment))
            ==> amount_held(
            variable_expense_plan(periods, payment, expense, payable, backing, corrected),
            payable,
            d,
            adj,
            owed,
            disc,
            adjustments_total(adj) + if corrected {
                disc
            } else {
                0
            },
        ) == 0,
{
    let es = variable_expense_plan(periods, payment, expense, payable, backing, corrected);
    let whole = adjustments_total(adj) + if corrected {
        disc
    } else {
        0
    };
    let n = periods.len();
    let ow = Seq::new(n, |k: int| true);
    lemma_variable_expense_months(periods, payment, expense, payable, backing, corrected, adj, owed, disc, whole, d, n);
    let last = es[es.len() - 1];
    assert(last.postings == seq![last.postings[0], last.postings[1]]);
    lemma_parts_two(last.postings[0], last.postings[1], expense, adj, owed, disc, whole);
    lemma_parts_two(last.postings[0], last.postings[1], payable, adj, owed, disc, whole);
    lemma_parts_two(last.postings[0], last.postings[1], backing, adj, owed, disc, whole);
    if corrected {
        let c = es[n as int];
        assert(c.postings == seq![c.postings[0], c.postings[1]]);
        lemma_parts_two(c.postings[0], c.postings[1], expense, adj, owed, disc, whole);
        lemma_parts_two(c.postings[0], c.postings[1], payable, adj, owed, disc, whole);
        lemma_parts_two(c.postings[0], c.postings[1], backing, adj, owed, disc, whole);
        assert(es.len() == n + 2);
        assert forall|a: Account| #[trigger] amount_held(es, a, d, adj, owed, disc, whole) == amount_on(es, a, d, adj, owed, disc, whole, n)
            + (if date_le(es[n as int].date, d) { parts_effect(es[n as int].postings, a, adj, owed, disc, whole) } else { 0 })
            + (if date_le(last.date, d) { parts_effect(last.postings, a, adj, owed, disc, whole) } else { 0 }) by {
            assert(amount_on(es, a, d, adj, owed, disc, whole, (n + 2) as nat) == amount_on(es, a, d, adj, owed, disc, whole, (n + 1) as nat)
                + (if date_le(es[n as int + 1].date, d) { parts_effect(es[n as int + 1].postings, a, adj, owed, disc, whole) } else { 0 }));
            assert(amount_on(es, a, d, adj, owed, disc, whole, (n + 1) as nat) == amount_on(es, a, d, adj, owed, disc, whole, n)
                + (if date_le(es[n as int].date, d) { parts_effect(es[n as int].postings, a, adj, owed, disc, whole) } else { 0 }));
        }
    } else {
        assert(es.len() == n + 1);
        assert forall|a: Account| #[trigger] amount_held(es, a, d, adj, owed, disc, whole) == amount_on(es, a, d, adj, owed, disc, whole, n)
            + (if date_le(last.date, d) { parts_effect(last.postings, a, adj, owed, disc, whole) } else { 0 }) by {
            assert(amount_on(es, a, d, adj, owed, disc, whole, (n + 1) as nat) == amount_on(es, a, d, adj, owed, disc, whole, n)
                + (if date_le(es[n as int].date, d) { parts_effect(es[n as int].postings, a, adj, owed, disc, whole) } else { 0 }));
        }
    }
    if date_le(payment, d) && (forall|k: int| 0 <= k < periods.len() ==> date_le(#[trigger] periods[k].adjustment_date, payment)) {
        assert forall|k: int| 0 <= k < periods.len() implies date_le(#[trigger] periods[k].adjustment_date, d) by {
            assert(date_le(periods[k].adjustment_date, payment));
        }
        lemma_all_accrued(periods, adj, ow, d, n);
        lemma_adjustments_total_upto(adj, ow);
    }
}

} // verus!
