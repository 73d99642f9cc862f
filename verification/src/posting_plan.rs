//! The journal entries that an accounting logic books for a payment: on
//! which dates, with which comments, and which accounts are debited and
//! credited. Each posting moves the payment's full amount, debited or
//! credited; the caller writes the amount in.
use vstd::prelude::*;

use crate::account::{name_view, Account, AssetAccount, EquityAccount, EquityClassification};
use crate::date::{date_lt, iso_text, Date};
use crate::errors::Error;
use crate::spec_types::CommonStockWhileUnpaid;
use crate::account::{AssetClassification, LiabilityAccount, LiabilityClassification};
use crate::standard_accounts::{
    prepaid_share_issuance_costs, share_issuance_costs, share_issuance_costs_payable,
    unpaid_share_capital_as_asset, unpaid_share_capital_as_equity, vat_payable, vat_receivable,
};

verus! {

/// Whether a posting takes the amount in (debit) or out (credit).
#[derive(Debug, Clone, Copy, PartialEq, Eq, Structural)]
pub enum Side {
    Debit,
    Credit,
}

/// A posting of the full amount to an account: linked to the account it
/// stands for until settled, when there is one, and marked as a non-cash
/// reclassification when it is one.
#[derive(Debug, Clone)]
pub struct PlannedPosting {
    pub account: Account,
    pub source_account: Option<Account>,
    pub non_cash_reclassification: bool,
    pub side: Side,
}

/// A journal entry of the plan.
#[derive(Debug)]
pub struct PlannedTransaction {
    pub date: Date,
    pub comment: Option<String>,
    pub postings: Vec<PlannedPosting>,
}

/// A journal entry as its date, comment and postings.
pub struct EntryView {
    pub date: Date,
    pub comment: Option<Seq<char>>,
    pub postings: Seq<PlannedPosting>,
}

impl View for PlannedTransaction {
    type V = EntryView;

    open spec fn view(&self) -> EntryView {
        EntryView {
            date: self.date,
            comment: match self.comment {
                Some(c) => Some(c@),
                None => None,
            },
            postings: self.postings@,
        }
    }
}

pub open spec fn entries_view(v: Seq<PlannedTransaction>) -> Seq<EntryView> {
    Seq::new(v.len(), |k: int| v[k]@)
}

pub open spec fn debit(a: Account) -> PlannedPosting {
    PlannedPosting { account: a, source_account: None, non_cash_reclassification: false, side: Side::Debit }
}

pub open spec fn credit(a: Account) -> PlannedPosting {
    PlannedPosting { account: a, source_account: None, non_cash_reclassification: false, side: Side::Credit }
}

pub open spec fn debit_linked(a: Account, source: Account) -> PlannedPosting {
    PlannedPosting {
        account: a,
        source_account: Some(source),
        non_cash_reclassification: false,
        side: Side::Debit,
    }
}

pub open spec fn credit_linked(a: Account, source: Account) -> PlannedPosting {
    PlannedPosting {
        account: a,
        source_account: Some(source),
        non_cash_reclassification: false,
        side: Side::Credit,
    }
}

pub open spec fn debit_reclassified(a: Account) -> PlannedPosting {
    PlannedPosting { account: a, source_account: None, non_cash_reclassification: true, side: Side::Debit }
}

pub open spec fn entry(date: Date, comment: Option<Seq<char>>, postings: Seq<PlannedPosting>) -> EntryView {
    EntryView { date, comment, postings }
}

/// How many postings of `ps` take side `side`.
pub open spec fn count_side(ps: Seq<PlannedPosting>, side: Side) -> nat
    decreases ps.len(),
{
    if ps.len() == 0 {
        0
    } else {
        count_side(ps.drop_last(), side) + if ps.last().side == side {
            1nat
        } else {
            0nat
        }
    }
}

/// Double entry: as many postings debit the amount as credit it, so the
/// amounts of the entry sum to zero.
pub open spec fn balanced(e: EntryView) -> bool {
    count_side(e.postings, Side::Debit) == count_side(e.postings, Side::Credit)
}

pub open spec fn all_balanced(es: Seq<EntryView>) -> bool {
    forall|k: int| 0 <= k < es.len() ==> balanced(#[trigger] es[k])
}

fn post(account: Account, source_account: Option<Account>, non_cash_reclassification: bool, side: Side) -> (r:
    PlannedPosting)
    ensures
        r == (PlannedPosting { account, source_account, non_cash_reclassification, side }),
{
    PlannedPosting { account, source_account, non_cash_reclassification, side }
}

fn one(p: PlannedPosting, q: PlannedPosting) -> (r: Vec<PlannedPosting>)
    ensures
        r@ == seq![p, q],
{
    let mut v: Vec<PlannedPosting> = Vec::new();
    v.push(p);
    v.push(q);
    v
}

fn comment(c: &str) -> (r: Option<String>)
    ensures
        r matches Some(s) && s@ == c@,
{
    Some(c.to_string())
}

proof fn lemma_pair_balanced(date: Date, c: Option<Seq<char>>, p: PlannedPosting, q: PlannedPosting)
    requires
        p.side != q.side,
    ensures
        balanced(entry(date, c, seq![p, q])),
{
    reveal_with_fuel(count_side, 3);
    let ps = seq![p, q];
    assert(ps.drop_last() == seq![p]);
    assert(seq![p].drop_last() == Seq::<PlannedPosting>::empty());
}

// Expenses, assets and costs of equity: accrued and paid.
// ---------------------------------------------------------------------------

/// The entries of an amount accrued on `accrual` and paid on `payment`:
/// one entry when both fall on the same day; else the payment put aside
/// (prepaid) until the accrual, or the accrual owed (payable) until the
/// payment. `comments` names the four entries of the two other cases.
pub open spec fn accrual_plan(
    payment: Date,
    accrual: Date,
    target: Account,
    prepaid: Account,
    payable: Account,
    backing: Account,
    comments: (Seq<char>, Seq<char>, Seq<char>, Seq<char>),
) -> Seq<EntryView> {
    if payment == accrual {
        seq![entry(payment, None, seq![credit(backing), debit(target)])]
    } else if date_lt(payment, accrual) {
        seq![
            entry(payment, Some(comments.0), seq![credit(backing), debit_linked(prepaid, target)]),
            entry(accrual, Some(comments.1), seq![credit(prepaid), debit(target)]),
        ]
    } else {
        seq![
            entry(accrual, Some(comments.2), seq![credit(payable), debit(target)]),
            entry(payment, Some(comments.3), seq![credit(backing), debit_linked(payable, target)]),
        ]
    }
}

fn plan_accrual(
    payment: Date,
    accrual: Date,
    target: Account,
    prepaid: Account,
    payable: Account,
    backing: Account,
    comments: (&str, &str, &str, &str),
) -> (r: Vec<PlannedTransaction>)
    ensures
        entries_view(r@) == accrual_plan(
            payment,
            accrual,
            target,
            prepaid,
            payable,
            backing,
            (comments.0@, comments.1@, comments.2@, comments.3@),
        ),
        all_balanced(entries_view(r@)),
{
    let mut out: Vec<PlannedTransaction> = Vec::new();
    if payment == accrual {
        out.push(
            PlannedTransaction {
                date: payment,
                comment: None,
                postings: one(
                    post(backing, None, false, Side::Credit),
                    post(target, None, false, Side::Debit),
                ),
            },
        );
    } else if payment.is_before(&accrual) {
        out.push(
            PlannedTransaction {
                date: payment,
                comment: comment(comments.0),
                postings: one(
                    post(backing, None, false, Side::Credit),
                    post(prepaid.duplicate(), Some(target.duplicate()), false, Side::Debit),
                ),
            },
        );
        out.push(
            PlannedTransaction {
                date: accrual,
                comment: comment(comments.1),
                postings: one(
                    post(prepaid, None, false, Side::Credit),
                    post(target, None, false, Side::Debit),
                ),
            },
        );
    } else {
        out.push(
            PlannedTransaction {
                date: accrual,
                comment: comment(comments.2),
                postings: one(
                    post(payable.duplicate(), None, false, Side::Credit),
                    post(target.duplicate(), None, false, Side::Debit),
                ),
            },
        );
        out.push(
            PlannedTransaction {
                date: payment,
                comment: comment(comments.3),
                postings: one(
                    post(backing, None, false, Side::Credit),
                    post(payable, Some(target), false, Side::Debit),
                ),
            },
        );
    }
    proof {
        let es = entries_view(out@);
        assert forall|k: int| 0 <= k < es.len() implies balanced(#[trigger] es[k]) by {
            lemma_pair_balanced(es[k].date, es[k].comment, es[k].postings[0], es[k].postings[1]);
            assert(es[k].postings == seq![es[k].postings[0], es[k].postings[1]]);
        }
    }
    out
}


/// Double entry: every entry that an accrued-and-paid amount books debits
/// the amount as often as it credits it.
pub proof fn lemma_accrual_plan_balanced(
    payment: Date,
    accrual: Date,
    target: Account,
    prepaid: Account,
    payable: Account,
    backing: Account,
    comments: (Seq<char>, Seq<char>, Seq<char>, Seq<char>),
)
    ensures
        all_balanced(accrual_plan(payment, accrual, target, prepaid, payable, backing, comments)),
{
    let es = accrual_plan(payment, accrual, target, prepaid, payable, backing, comments);
    assert forall|k: int| 0 <= k < es.len() implies balanced(#[trigger] es[k]) by {
        lemma_pair_balanced(es[k].date, es[k].comment, es[k].postings[0], es[k].postings[1]);
        assert(es[k].postings == seq![es[k].postings[0], es[k].postings[1]]);
    }
}

/// The entries of an expense accrued on `accrual` and paid on `payment`
/// from `backing`: `prepaid` and `payable` hold it in between.
pub fn plan_simple_expense(
    payment: Date,
    accrual: Date,
    expense: Account,
    prepaid: Account,
    payable: Account,
    backing: Account,
) -> (r: Vec<PlannedTransaction>)
    ensures
        entries_view(r@) == accrual_plan(
            payment,
            accrual,
            expense,
            prepaid,
            payable,
            backing,
            (
                "Pre-paid expense"@,
                "Accrue pre-paid expense"@,
                "Accrue payable expense"@,
                "Clear payable expense"@,
            ),
        ),
        all_balanced(entries_view(r@)),
{
    plan_accrual(
        payment,
        accrual,
        expense,
        prepaid,
        payable,
        backing,
        ("Pre-paid expense", "Accrue pre-paid expense", "Accrue payable expense", "Clear payable expense"),
    )
}

/// The entries of the costs of issuing shares, accrued on `accrual` and
/// paid on `payment` from `backing`.
pub fn plan_cost_of_equity(payment: Date, accrual: Date, backing: Account) -> (r: Vec<PlannedTransaction>)
    ensures
        exists|prepaid: AssetAccount, payable: LiabilityAccount|
            {
                &&& name_view(prepaid.0) == Some("PrepaidShareIssuanceCosts"@)
                &&& prepaid.1 == AssetClassification::OtherCurrentAssets
                &&& name_view(payable.0) == Some("ShareIssuanceCostsPayable"@)
                &&& payable.1 == LiabilityClassification::OtherCurrentLiabilities
                &&& entries_view(r@) == accrual_plan(
                    payment,
                    accrual,
                    Account::Equity(EquityAccount(None, EquityClassification::ShareIssuanceCosts)),
                    Account::Asset(prepaid),
                    Account::Liability(payable),
                    backing,
                    (
                        "Pre-paid share issuance costs"@,
                        "Accrue pre-paid share issuance costs"@,
                        "Accrue payable share issuance costs"@,
                        "Clear payable share issuance costs"@,
                    ),
                )
            },
        all_balanced(entries_view(r@)),
{
    let target = share_issuance_costs();
    let prepaid = prepaid_share_issuance_costs();
    let payable = share_issuance_costs_payable();
    let ghost pa = prepaid;
    let ghost pl = payable;
    let r = plan_accrual(
        payment,
        accrual,
        Account::Equity(target),
        Account::Asset(prepaid),
        Account::Liability(payable),
        backing,
        (
            "Pre-paid share issuance costs",
            "Accrue pre-paid share issuance costs",
            "Accrue payable share issuance costs",
            "Clear payable share issuance costs",
        ),
    );
    assert(target == EquityAccount(None, EquityClassification::ShareIssuanceCosts));
    r
}

/// Whether two asset accounts are the same account.
pub open spec fn same_asset(a: AssetAccount, b: AssetAccount) -> bool {
    name_view(a.0) == name_view(b.0) && a.1 == b.1
}

fn asset_accounts_equal(a: &AssetAccount, b: &AssetAccount) -> (r: bool)
    ensures
        r == same_asset(*a, *b),
{
    let names = match (&a.0, &b.0) {
        (Some(x), Some(y)) => *x == *y,
        (None, None) => true,
        _ => false,
    };
    names && a.1 == b.1
}

/// The entries of an asset acquired on `accrual` and paid on `payment`:
/// paid ahead, it sits in `prepaid` and is reclassified into the asset on
/// acquisition (unless `prepaid` is the asset itself); paid after, the debt
/// sits in `payable` until paid.
pub open spec fn capitalize_plan(
    payment: Date,
    accrual: Date,
    asset: AssetAccount,
    prepaid: AssetAccount,
    payable: Account,
    backing: Account,
) -> Seq<EntryView> {
    if payment == accrual {
        seq![entry(payment, None, seq![credit(backing), debit(Account::Asset(asset))])]
    } else if date_lt(payment, accrual) {
        let first = entry(
            payment,
            Some("Pre-paid asset"@),
            seq![credit(backing), debit(Account::Asset(prepaid))],
        );
        if same_asset(asset, prepaid) {
            seq![first]
        } else {
            seq![
                first,
                entry(
                    accrual,
                    Some("Reclassify pre-paid asset"@),
                    seq![credit(Account::Asset(prepaid)), debit_reclassified(Account::Asset(asset))],
                ),
            ]
        }
    } else {
        seq![
            entry(accrual, Some("Accrue payable asset"@), seq![credit(payable), debit(Account::Asset(asset))]),
            entry(
                payment,
                Some("Clear payable asset"@),
                seq![credit(backing), debit_linked(payable, Account::Asset(asset))],
            ),
        ]
    }
}

/// The entries of an asset acquired on `accrual` and paid on `payment`.
pub fn plan_capitalize(
    payment: Date,
    accrual: Date,
    asset: AssetAccount,
    prepaid: AssetAccount,
    payable: Account,
    backing: Account,
) -> (r: Vec<PlannedTransaction>)
    ensures
        entries_view(r@) == capitalize_plan(payment, accrual, asset, prepaid, payable, backing),
        all_balanced(entries_view(r@)),
{
    let mut out: Vec<PlannedTransaction> = Vec::new();
    if payment == accrual {
        out.push(
            PlannedTransaction {
                date: payment,
                comment: None,
                postings: one(
                    post(backing, None, false, Side::Credit),
                    post(Account::Asset(asset), None, false, Side::Debit),
                ),
            },
        );
    } else if payment.is_before(&accrual) {
        let same = asset_accounts_equal(&asset, &prepaid);
        out.push(
            PlannedTransaction {
                date: payment,
                comment: comment("Pre-paid asset"),
                postings: one(
                    post(backing, None, false, Side::Credit),
                    post(Account::Asset(prepaid.duplicate()), None, false, Side::Debit),
                ),
            },
        );
        if !same {
            out.push(
                PlannedTransaction {
                    date: accrual,
                    comment: comment("Reclassify pre-paid asset"),
                    postings: one(
                        post(Account::Asset(prepaid), None, false, Side::Credit),
                        post(Account::Asset(asset), None, true, Side::Debit),
                    ),
                },
            );
        }
    } else {
        out.push(
            PlannedTransaction {
                date: accrual,
                comment: comment("Accrue payable asset"),
                postings: one(
                    post(payable.duplicate(), None, false, Side::Credit),
                    post(Account::Asset(asset.duplicate()), None, false, Side::Debit),
                ),
            },
        );
        out.push(
            PlannedTransaction {
                date: payment,
                comment: comment("Clear payable asset"),
                postings: one(
                    post(backing, None, false, Side::Credit),
                    post(payable, Some(Account::Asset(asset)), false, Side::Debit),
                ),
            },
        );
    }
    proof {
        let es = entries_view(out@);
        assert forall|k: int| 0 <= k < es.len() implies balanced(#[trigger] es[k]) by {
            lemma_pair_balanced(es[k].date, es[k].comment, es[k].postings[0], es[k].postings[1]);
            assert(es[k].postings == seq![es[k].postings[0], es[k].postings[1]]);
        }
    }
    out
}

/// The account that carries subscribed capital while unpaid: a receivable
/// asset, or negative equity.
pub open spec fn unpaid_capital_account(while_unpaid: CommonStockWhileUnpaid, a: Account) -> bool {
    match while_unpaid {
        CommonStockWhileUnpaid::ReceivableAsset => a matches Account::Asset(x) && name_view(x.0) == Some(
            "SubscribedCapitalReceivable"@,
        ) && x.1 == AssetClassification::OtherCurrentAssets,
        CommonStockWhileUnpaid::NegativeEquity => a == Account::Equity(
            EquityAccount(None, EquityClassification::UnpaidShareCapital),
        ),
    }
}

/// The entries of share capital subscribed on `accrual` and paid on
/// `payment`: one entry when both fall on the same day; else the capital is
/// carried in `unpaid` until the payment.
pub open spec fn common_stock_plan(
    payment: Date,
    accrual: Date,
    subscriber: Account,
    unpaid: Account,
    backing: Account,
) -> Seq<EntryView> {
    if payment == accrual {
        seq![entry(payment, None, seq![credit(subscriber), debit(backing)])]
    } else {
        seq![
            entry(accrual, Some("Unpaid share capital"@), seq![credit(subscriber), debit(unpaid)]),
            entry(
                payment,
                Some("Share capital contribution"@),
                seq![credit_linked(unpaid, subscriber), debit(backing)],
            ),
        ]
    }
}

/// The entries of share capital subscribed on `accrual` and paid on
/// `payment`; refused when it is paid before it is subscribed.
pub fn plan_common_stock(
    payment: Date,
    accrual: Date,
    subscriber: Account,
    while_unpaid: CommonStockWhileUnpaid,
    backing: Account,
    description: &str,
) -> (r: Result<Vec<PlannedTransaction>, Error>)
    ensures
        date_lt(payment, accrual) ==> (r matches Err(Error::CommonStockCannotBePrepaid { description: d })
            && d@ == description@),
        !date_lt(payment, accrual) ==> (r matches Ok(v) && all_balanced(entries_view(v@)) && exists|
            unpaid: Account,
        |
            unpaid_capital_account(while_unpaid, unpaid) && entries_view(v@) == common_stock_plan(
                payment,
                accrual,
                subscriber,
                unpaid,
                backing,
            )),
{
    let mut out: Vec<PlannedTransaction> = Vec::new();
    let unpaid = match while_unpaid {
        CommonStockWhileUnpaid::ReceivableAsset => Account::Asset(unpaid_share_capital_as_asset()),
        CommonStockWhileUnpaid::NegativeEquity => Account::Equity(unpaid_share_capital_as_equity()),
    };
    assert(unpaid_capital_account(while_unpaid, unpaid));
    if payment == accrual {
        out.push(
            PlannedTransaction {
                date: payment,
                comment: None,
                postings: one(
                    post(subscriber, None, false, Side::Credit),
                    post(backing, None, false, Side::Debit),
                ),
            },
        );
    } else if accrual.is_before(&payment) {
        out.push(
            PlannedTransaction {
                date: accrual,
                comment: comment("Unpaid share capital"),
                postings: one(
                    post(subscriber.duplicate(), None, false, Side::Credit),
                    post(unpaid.duplicate(), None, false, Side::Debit),
                ),
            },
        );
        out.push(
            PlannedTransaction {
                date: payment,
                comment: comment("Share capital contribution"),
                postings: one(
                    post(unpaid.duplicate(), Some(subscriber), false, Side::Credit),
                    post(backing, None, false, Side::Debit),
                ),
            },
        );
    } else {
        return Err(Error::CommonStockCannotBePrepaid { description: description.to_string() });
    }
    proof {
        let es = entries_view(out@);
        assert forall|k: int| 0 <= k < es.len() implies balanced(#[trigger] es[k]) by {
            lemma_pair_balanced(es[k].date, es[k].comment, es[k].postings[0], es[k].postings[1]);
            assert(es[k].postings == seq![es[k].postings[0], es[k].postings[1]]);
        }
    }
    Ok(out)
}

/// The entry of an immaterial income: recognized when received.
pub open spec fn immaterial_income_plan(payment: Date, income: Account, backing: Account) -> Seq<EntryView> {
    seq![entry(payment, None, seq![credit(income), debit(backing)])]
}

/// The entry of an immaterial expense: recognized when paid.
pub open spec fn immaterial_expense_plan(payment: Date, expense: Account, backing: Account) -> Seq<EntryView> {
    seq![entry(payment, None, seq![credit(backing), debit(expense)])]
}

/// The entry of an immaterial income, recognized when received.
pub fn plan_immaterial_income(payment: Date, income: Account, backing: Account) -> (r: Vec<
    PlannedTransaction,
>)
    ensures
        entries_view(r@) == immaterial_income_plan(payment, income, backing),
        all_balanced(entries_view(r@)),
{
    let mut out: Vec<PlannedTransaction> = Vec::new();
    out.push(
        PlannedTransaction {
            date: payment,
            comment: None,
            postings: one(post(income, None, false, Side::Credit), post(backing, None, false, Side::Debit)),
        },
    );
    proof {
        let es = entries_view(out@);
        lemma_pair_balanced(es[0].date, es[0].comment, es[0].postings[0], es[0].postings[1]);
        assert(es[0].postings == seq![es[0].postings[0], es[0].postings[1]]);
    }
    out
}

/// The entry of an immaterial expense, recognized when paid.
pub fn plan_immaterial_expense(payment: Date, expense: Account, backing: Account) -> (r: Vec<
    PlannedTransaction,
>)
    ensures
        entries_view(r@) == immaterial_expense_plan(payment, expense, backing),
        all_balanced(entries_view(r@)),
{
    let mut out: Vec<PlannedTransaction> = Vec::new();
    out.push(
        PlannedTransaction {
            date: payment,
            comment: None,
            postings: one(post(backing, None, false, Side::Credit), post(expense, None, false, Side::Debit)),
        },
    );
    proof {
        let es = entries_view(out@);
        lemma_pair_balanced(es[0].date, es[0].comment, es[0].postings[0], es[0].postings[1]);
        assert(es[0].postings == seq![es[0].postings[0], es[0].postings[1]]);
    }
    out
}

// Clearing VAT.
// ---------------------------------------------------------------------------

/// The balance that an account must have: none, the amount, or the amount
/// owed.
#[derive(Debug, Clone, Copy, PartialEq, Eq, Structural)]
pub enum BalanceShare {
    Zero,
    Whole,
    NegatedWhole,
}

/// A balance assertion of the plan.
#[derive(Debug, Clone)]
pub struct PlannedAssertion {
    pub date: Date,
    pub account: Account,
    pub balance: BalanceShare,
}

/// The entry and assertions that clear VAT for `from`..`to` on `accrual`:
/// a refund (`refund`) clears the receivable into `cash`, a payment clears
/// the payable from `cash`; on `to`, the cleared account held the amount and
/// the other one nothing.
pub open spec fn clear_vat_plan(
    refund: bool,
    accrual: Date,
    from: Date,
    to: Date,
    cash: Account,
    receivable: Account,
    payable: Account,
) -> (Seq<EntryView>, Seq<PlannedAssertion>) {
    let period = iso_text(from) + " - "@ + iso_text(to);
    if refund {
        (
            seq![entry(accrual, Some("Clear VAT receivable for "@ + period), seq![credit(receivable), debit(cash)])],
            seq![
                PlannedAssertion { date: to, account: receivable, balance: BalanceShare::Whole },
                PlannedAssertion { date: to, account: payable, balance: BalanceShare::Zero },
            ],
        )
    } else {
        (
            seq![entry(accrual, Some("Clear VAT payable for "@ + period), seq![credit(cash), debit(payable)])],
            seq![
                PlannedAssertion { date: to, account: receivable, balance: BalanceShare::Zero },
                PlannedAssertion { date: to, account: payable, balance: BalanceShare::NegatedWhole },
            ],
        )
    }
}

fn vat_comment(prefix: &str, from: Date, to: Date) -> (r: Option<String>)
    ensures
        r matches Some(s) && s@ == prefix@ + iso_text(from) + " - "@ + iso_text(to),
{
    let mut s = String::new();
    s.append(prefix);
    s.append(from.to_iso_string().as_str());
    s.append(" - ");
    s.append(to.to_iso_string().as_str());
    Some(s)
}

/// The entry and assertions that clear VAT: `refund` when VAT is refunded
/// into `cash`, else when it is paid from `cash`.
pub fn plan_clear_vat(refund: bool, accrual: Date, from: Date, to: Date, cash: Account) -> (r: (
    Vec<PlannedTransaction>,
    Vec<PlannedAssertion>,
))
    ensures
        exists|receivable: AssetAccount, payable: LiabilityAccount|
            {
                &&& name_view(receivable.0) == Some("VatReceivable"@)
                &&& receivable.1 == AssetClassification::OtherCurrentAssets
                &&& name_view(payable.0) == Some("VatPayable"@)
                &&& payable.1 == LiabilityClassification::OtherCurrentLiabilities
                &&& (entries_view(r.0@), r.1@) == clear_vat_plan(
                    refund,
                    accrual,
                    from,
                    to,
                    cash,
                    Account::Asset(receivable),
                    Account::Liability(payable),
                )
            },
        all_balanced(entries_view(r.0@)),
{
    let receivable = vat_receivable();
    let payable = vat_payable();
    let ghost rec = receivable;
    let ghost pay = payable;
    let rec_account = Account::Asset(receivable);
    let pay_account = Account::Liability(payable);
    let mut entries: Vec<PlannedTransaction> = Vec::new();
    let mut assertions: Vec<PlannedAssertion> = Vec::new();
    if refund {
        entries.push(
            PlannedTransaction {
                date: accrual,
                comment: vat_comment("Clear VAT receivable for ", from, to),
                postings: one(
                    post(rec_account.duplicate(), None, false, Side::Credit),
                    post(cash, None, false, Side::Debit),
                ),
            },
        );
        assertions.push(PlannedAssertion { date: to, account: rec_account, balance: BalanceShare::Whole });
        assertions.push(PlannedAssertion { date: to, account: pay_account, balance: BalanceShare::Zero });
    } else {
        entries.push(
            PlannedTransaction {
                date: accrual,
                comment: vat_comment("Clear VAT payable for ", from, to),
                postings: one(
                    post(cash, None, false, Side::Credit),
                    post(pay_account.duplicate(), None, false, Side::Debit),
                ),
            },
        );
        assertions.push(PlannedAssertion { date: to, account: rec_account, balance: BalanceShare::Zero });
        assertions.push(
            PlannedAssertion { date: to, account: pay_account, balance: BalanceShare::NegatedWhole },
        );
    }
    proof {
        let es = entries_view(entries@);
        lemma_pair_balanced(es[0].date, es[0].comment, es[0].postings[0], es[0].postings[1]);
        assert(es[0].postings == seq![es[0].postings[0], es[0].postings[1]]);
        let plan = clear_vat_plan(
            refund,
            accrual,
            from,
            to,
            cash,
            Account::Asset(rec),
            Account::Liability(pay),
        );
        assert(es.len() == 1 && plan.0.len() == 1);
        assert(es[0].date == plan.0[0].date);
        assert(es[0].comment == plan.0[0].comment);
        assert(es[0].postings =~= plan.0[0].postings);
        assert(es[0] == plan.0[0]);
        assert(es =~= plan.0);
        assert(assertions@ =~= plan.1);
    }
    (entries, assertions)
}

} // verus!
