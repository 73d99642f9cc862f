//! What the planned entries do to the books. Every posting of a plan moves
//! the whole amount, so the balance of an account on a date counts, over the
//! entries dated on or before it, the times the account is debited less the
//! times it is credited. The laws below say, for each accounting treatment,
//! from which date each account holds the amount and on which side.
use vstd::prelude::*;

use crate::account::{Account, AssetAccount};
use crate::date::{date_le, date_lt, Date};
use crate::posting_plan::{
    accrual_plan, capitalize_plan, clear_vat_plan, common_stock_plan, immaterial_expense_plan,
    immaterial_income_plan, same_asset, EntryView, PlannedPosting, Side,
};

verus! {

/// What a posting does to `a`: +1 when it debits `a`, -1 when it credits
/// it, 0 when it posts to another account.
pub open spec fn posting_effect(p: PlannedPosting, a: Account) -> int {
    if p.account == a {
        if p.side == Side::Debit {
            1
        } else {
            -1
        }
    } else {
        0
    }
}

pub open spec fn postings_effect(ps: Seq<PlannedPosting>, a: Account) -> int
    decreases ps.len(),
{
    if ps.len() == 0 {
        0
    } else {
        postings_effect(ps.drop_last(), a) + posting_effect(ps.last(), a)
    }
}

/// The balance of `a` at the end of day `d`, in units of the amount: what
/// the entries dated on or before `d` debit it less what they credit it.
pub open spec fn balance_on(es: Seq<EntryView>, a: Account, d: Date) -> int
    decreases es.len(),
{
    if es.len() == 0 {
        0
    } else {
        balance_on(es.drop_last(), a, d) + if date_le(es.last().date, d) {
            postings_effect(es.last().postings, a)
        } else {
            0
        }
    }
}

/// 1 from `from` on, else 0.
pub open spec fn held_from(from: Date, d: Date) -> int {
    if date_le(from, d) {
        1
    } else {
        0
    }
}

/// 1 from `from` on until the day before `until`, else 0.
pub open spec fn held_between(from: Date, until: Date, d: Date) -> int {
    if date_le(from, d) && !date_le(until, d) {
        1
    } else {
        0
    }
}

proof fn lemma_pair_effect(p: PlannedPosting, q: PlannedPosting, a: Account)
    ensures
        postings_effect(seq![p, q], a) == posting_effect(p, a) + posting_effect(q, a),
{
    reveal_with_fuel(postings_effect, 3);
    assert(seq![p, q].drop_last() =~= seq![p]);
    assert(seq![p].drop_last() =~= Seq::<PlannedPosting>::empty());
}

proof fn lemma_balance_one(e: EntryView, a: Account, d: Date)
    ensures
        balance_on(seq![e], a, d) == if date_le(e.date, d) {
            postings_effect(e.postings, a)
        } else {
            0
        },
{
    reveal_with_fuel(balance_on, 2);
    assert(seq![e].drop_last() =~= Seq::<EntryView>::empty());
}

proof fn lemma_balance_two(e: EntryView, f: EntryView, a: Account, d: Date)
    ensures
        balance_on(seq![e, f], a, d) == (if date_le(e.date, d) {
            postings_effect(e.postings, a)
        } else {
            0
        }) + (if date_le(f.date, d) {
            postings_effect(f.postings, a)
        } else {
            0
        }),
{
    reveal_with_fuel(balance_on, 3);
    assert(seq![e, f].drop_last() =~= seq![e]);
    assert(seq![e].drop_last() =~= Seq::<EntryView>::empty());
}

/// An amount accrued on `accrual` and paid on `payment` (a simple expense,
/// the costs of issuing shares): `target` holds it, on the debit side, from
/// the accrual date on; it leaves `backing` on the payment date; paid first,
/// `prepaid` holds it in between; accrued first, `payable` owes it in
/// between. For four different accounts.
pub proof fn lemma_accrual_plan_timing(
    payment: Date,
    accrual: Date,
    target: Account,
    prepaid: Account,
    payable: Account,
    backing: Account,
    comments: (Seq<char>, Seq<char>, Seq<char>, Seq<char>),
    d: Date,
)
    requires
        target != prepaid,
        target != payable,
        target != backing,
        prepaid != payable,
        prepaid != backing,
        payable != backing,
    ensures
        balance_on(accrual_plan(payment, accrual, target, prepaid, payable, backing, comments), target, d)
            == held_from(accrual, d),
        balance_on(accrual_plan(payment, accrual, target, prepaid, payable, backing, comments), backing, d)
            == -held_from(payment, d),
        balance_on(accrual_plan(payment, accrual, target, prepaid, payable, backing, comments), prepaid, d)
            == held_between(payment, accrual, d),
        balance_on(accrual_plan(payment, accrual, target, prepaid, payable, backing, comments), payable, d)
            == -held_between(accrual, payment, d),
{
    let es = accrual_plan(payment, accrual, target, prepaid, payable, backing, comments);
    if payment == accrual {
        let e = es[0];
        assert(es == seq![e]);
        lemma_pair_effect(e.postings[0], e.postings[1], target);
        lemma_pair_effect(e.postings[0], e.postings[1], backing);
        lemma_pair_effect(e.postings[0], e.postings[1], prepaid);
        lemma_pair_effect(e.postings[0], e.postings[1], payable);
        assert(e.postings == seq![e.postings[0], e.postings[1]]);
        lemma_balance_one(e, target, d);
        lemma_balance_one(e, backing, d);
        lemma_balance_one(e, prepaid, d);
        lemma_balance_one(e, payable, d);
    } else {
        let e = es[0];
        let f = es[1];
        assert(es == seq![e, f]);
        assert(e.postings == seq![e.postings[0], e.postings[1]]);
        assert(f.postings == seq![f.postings[0], f.postings[1]]);
        lemma_pair_effect(e.postings[0], e.postings[1], target);
        lemma_pair_effect(e.postings[0], e.postings[1], backing);
        lemma_pair_effect(e.postings[0], e.postings[1], prepaid);
        lemma_pair_effect(e.postings[0], e.postings[1], payable);
        lemma_pair_effect(f.postings[0], f.postings[1], target);
        lemma_pair_effect(f.postings[0], f.postings[1], backing);
        lemma_pair_effect(f.postings[0], f.postings[1], prepaid);
        lemma_pair_effect(f.postings[0], f.postings[1], payable);
        lemma_balance_two(e, f, target, d);
        lemma_balance_two(e, f, backing, d);
        lemma_balance_two(e, f, prepaid, d);
        lemma_balance_two(e, f, payable, d);
    }
}

/// An asset acquired on `accrual` and paid on `payment`, put aside first in
/// a prepaid account other than the asset: the asset is on the books, on
/// the debit side, from its acquisition on; the payment leaves `backing` on
/// the payment date; paid first, `prepaid` holds it until the acquisition;
/// acquired first, `payable` owes it until the payment. For four different
/// accounts.
pub proof fn lemma_capitalize_timing(
    payment: Date,
    accrual: Date,
    asset: AssetAccount,
    prepaid: AssetAccount,
    payable: Account,
    backing: Account,
    d: Date,
)
    requires
        !same_asset(asset, prepaid),
        Account::Asset(asset) != payable,
        Account::Asset(asset) != backing,
        Account::Asset(prepaid) != payable,
        Account::Asset(prepaid) != backing,
        payable != backing,
    ensures
        balance_on(capitalize_plan(payment, accrual, asset, prepaid, payable, backing), Account::Asset(asset), d)
            == held_from(accrual, d),
        balance_on(capitalize_plan(payment, accrual, asset, prepaid, payable, backing), backing, d)
            == -held_from(payment, d),
        balance_on(capitalize_plan(payment, accrual, asset, prepaid, payable, backing), Account::Asset(prepaid), d)
            == held_between(payment, accrual, d),
        balance_on(capitalize_plan(payment, accrual, asset, prepaid, payable, backing), payable, d)
            == -held_between(accrual, payment, d),
{
    let es = capitalize_plan(payment, accrual, asset, prepaid, payable, backing);
    let aa = Account::Asset(asset);
    let pa = Account::Asset(prepaid);
    assert(aa != pa);
    if payment == accrual {
        let e = es[0];
        assert(es == seq![e]);
        assert(e.postings == seq![e.postings[0], e.postings[1]]);
        lemma_pair_effect(e.postings[0], e.postings[1], aa);
        lemma_pair_effect(e.postings[0], e.postings[1], backing);
        lemma_pair_effect(e.postings[0], e.postings[1], pa);
        lemma_pair_effect(e.postings[0], e.postings[1], payable);
        lemma_balance_one(e, aa, d);
        lemma_balance_one(e, backing, d);
        lemma_balance_one(e, pa, d);
        lemma_balance_one(e, payable, d);
    } else {
        let e = es[0];
        let f = es[1];
        assert(es == seq![e, f]);
        assert(e.postings == seq![e.postings[0], e.postings[1]]);
        assert(f.postings == seq![f.postings[0], f.postings[1]]);
        lemma_pair_effect(e.postings[0], e.postings[1], aa);
        lemma_pair_effect(e.postings[0], e.postings[1], backing);
        lemma_pair_effect(e.postings[0], e.postings[1], pa);
        lemma_pair_effect(e.postings[0], e.postings[1], payable);
        lemma_pair_effect(f.postings[0], f.postings[1], aa);
        lemma_pair_effect(f.postings[0], f.postings[1], backing);
        lemma_pair_effect(f.postings[0], f.postings[1], pa);
        lemma_pair_effect(f.postings[0], f.postings[1], payable);
        lemma_balance_two(e, f, aa, d);
        lemma_balance_two(e, f, backing, d);
        lemma_balance_two(e, f, pa, d);
        lemma_balance_two(e, f, payable, d);
    }
}

/// An asset paid ahead into the asset account itself: the asset is on the
/// books from the payment on, and the payment leaves `backing` that day.
pub proof fn lemma_capitalize_prepaid_as_asset(
    payment: Date,
    accrual: Date,
    asset: AssetAccount,
    prepaid: AssetAccount,
    payable: Account,
    backing: Account,
    d: Date,
)
    requires
        same_asset(asset, prepaid),
        date_lt(payment, accrual),
        Account::Asset(prepaid) != backing,
    ensures
        balance_on(capitalize_plan(payment, accrual, asset, prepaid, payable, backing), Account::Asset(prepaid), d)
            == held_from(payment, d),
        balance_on(capitalize_plan(payment, accrual, asset, prepaid, payable, backing), backing, d)
            == -held_from(payment, d),
{
    let es = capitalize_plan(payment, accrual, asset, prepaid, payable, backing);
    let e = es[0];
    assert(es == seq![e]);
    assert(e.postings == seq![e.postings[0], e.postings[1]]);
    lemma_pair_effect(e.postings[0], e.postings[1], Account::Asset(prepaid));
    lemma_pair_effect(e.postings[0], e.postings[1], backing);
    lemma_balance_one(e, Account::Asset(prepaid), d);
    lemma_balance_one(e, backing, d);
}

/// Share capital subscribed on `accrual` and paid on `payment` (not
/// before): the subscriber's equity is credited from the subscription on;
/// the cash comes into `backing`, on the debit side, on the payment date;
/// in between `unpaid` carries what is still to be paid. For three
/// different accounts.
pub proof fn lemma_common_stock_timing(
    payment: Date,
    accrual: Date,
    subscriber: Account,
    unpaid: Account,
    backing: Account,
    d: Date,
)
    requires
        !date_lt(payment, accrual),
        subscriber != unpaid,
        subscriber != backing,
        unpaid != backing,
    ensures
        balance_on(common_stock_plan(payment, accrual, subscriber, unpaid, backing), subscriber, d)
            == -held_from(accrual, d),
        balance_on(common_stock_plan(payment, accrual, subscriber, unpaid, backing), backing, d)
            == held_from(payment, d),
        balance_on(common_stock_plan(payment, accrual, subscriber, unpaid, backing), unpaid, d)
            == held_between(accrual, payment, d),
{
    let es = common_stock_plan(payment, accrual, subscriber, unpaid, backing);
    if payment == accrual {
        let e = es[0];
        assert(es == seq![e]);
        assert(e.postings == seq![e.postings[0], e.postings[1]]);
        lemma_pair_effect(e.postings[0], e.postings[1], subscriber);
        lemma_pair_effect(e.postings[0], e.postings[1], backing);
        lemma_pair_effect(e.postings[0], e.postings[1], unpaid);
        lemma_balance_one(e, subscriber, d);
        lemma_balance_one(e, backing, d);
        lemma_balance_one(e, unpaid, d);
    } else {
        let e = es[0];
        let f = es[1];
        assert(es == seq![e, f]);
        assert(e.postings == seq![e.postings[0], e.postings[1]]);
        assert(f.postings == seq![f.postings[0], f.postings[1]]);
        lemma_pair_effect(e.postings[0], e.postings[1], subscriber);
        lemma_pair_effect(e.postings[0], e.postings[1], backing);
        lemma_pair_effect(e.postings[0], e.postings[1], unpaid);
        lemma_pair_effect(f.postings[0], f.postings[1], subscriber);
        lemma_pair_effect(f.postings[0], f.postings[1], backing);
        lemma_pair_effect(f.postings[0], f.postings[1], unpaid);
        lemma_balance_two(e, f, subscriber, d);
        lemma_balance_two(e, f, backing, d);
        lemma_balance_two(e, f, unpaid, d);
    }
}

/// An immaterial income is credited to the income, and the cash comes into
/// `backing`, on the day it is received; an immaterial expense is debited
/// to the expense, and the cash leaves `backing`, on the day it is paid.
pub proof fn lemma_immaterial_timing(payment: Date, account: Account, backing: Account, d: Date)
    requires
        account != backing,
    ensures
        balance_on(immaterial_income_plan(payment, account, backing), account, d) == -held_from(payment, d),
        balance_on(immaterial_income_plan(payment, account, backing), backing, d) == held_from(payment, d),
        balance_on(immaterial_expense_plan(payment, account, backing), account, d) == held_from(payment, d),
        balance_on(immaterial_expense_plan(payment, account, backing), backing, d) == -held_from(payment, d),
{
    let i = immaterial_income_plan(payment, account, backing)[0];
    let x = immaterial_expense_plan(payment, account, backing)[0];
    assert(immaterial_income_plan(payment, account, backing) == seq![i]);
    assert(immaterial_expense_plan(payment, account, backing) == seq![x]);
    assert(i.postings == seq![i.postings[0], i.postings[1]]);
    assert(x.postings == seq![x.postings[0], x.postings[1]]);
    lemma_pair_effect(i.postings[0], i.postings[1], account);
    lemma_pair_effect(i.postings[0], i.postings[1], backing);
    lemma_pair_effect(x.postings[0], x.postings[1], account);
    lemma_pair_effect(x.postings[0], x.postings[1], backing);
    lemma_balance_one(i, account, d);
    lemma_balance_one(i, backing, d);
    lemma_balance_one(x, account, d);
    lemma_balance_one(x, backing, d);
}

/// Clearing VAT on `accrual`: a refund comes into `cash` out of the
/// receivable; a payment leaves `cash` and settles the payable. For three
/// different accounts.
pub proof fn lemma_clear_vat_effect(
    refund: bool,
    accrual: Date,
    from: Date,
    to: Date,
    cash: Account,
    receivable: Account,
    payable: Account,
    d: Date,
)
    requires
        cash != receivable,
        cash != payable,
        receivable != payable,
    ensures
        balance_on(clear_vat_plan(refund, accrual, from, to, cash, receivable, payable).0, cash, d) == if refund {
            held_from(accrual, d)
        } else {
            -held_from(accrual, d)
        },
        balance_on(clear_vat_plan(refund, accrual, from, to, cash, receivable, payable).0, receivable, d) == if refund {
            -held_from(accrual, d)
        } else {
            0
        },
        balance_on(clear_vat_plan(refund, accrual, from, to, cash, receivable, payable).0, payable, d) == if refund {
            0
        } else {
            held_from(accrual, d)
        },
{
    let es = clear_vat_plan(refund, accrual, from, to, cash, receivable, payable).0;
    let e = es[0];
    assert(es == seq![e]);
    assert(e.postings == seq![e.postings[0], e.postings[1]]);
    lemma_pair_effect(e.postings[0], e.postings[1], cash);
    lemma_pair_effect(e.postings[0], e.postings[1], receivable);
    lemma_pair_effect(e.postings[0], e.postings[1], payable);
    lemma_balance_one(e, cash, d);
    lemma_balance_one(e, receivable, d);
    lemma_balance_one(e, payable, d);
}

} // verus!
