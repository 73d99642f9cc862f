//! What the standard decorators do to a transaction: the entries they add
//! (on which dates, with which comments, which accounts take a figure and
//! which take it negated), the note they attach, and which amount the
//! transaction carries on with. The figures themselves (a fee, the VAT in an
//! amount, a discrepancy) are floating-point numbers worked out by the
//! caller, who also says how each compares with zero where that decides an
//! account or whether an entry is booked at all.
use vstd::prelude::*;

use crate::account::{
    name_view, Account, AssetClassification, ExpenseClassification, IncomeClassification,
    LiabilityClassification,
};
use crate::annotation::Annotation;
use crate::date::{chrono_parse_ymd, parse_iso_date, Date};
use crate::errors::Error;
use crate::standard_accounts::{
    foreign_transaction_fee, payment_fees, realized_fx_gain, realized_fx_loss,
    vat_adjustment_expense, vat_adjustment_income, vat_payable, vat_pending_receipt,
    vat_receivable,
};

verus! {

/// A figure that a decorator works out from the transaction.
#[derive(Debug, Clone, Copy, PartialEq, Eq, Structural)]
pub enum Figure {
    /// A fee charged for the payment.
    Fee,
    /// The VAT held in the amount: the amount less the amount divided by 1.1.
    Vat,
    /// The difference between what was expected and what was settled.
    Discrepancy,
}

/// How a figure compares with zero, once it is known to be worth booking.
#[derive(Debug, Clone, Copy, PartialEq, Eq, Structural)]
pub enum Weight {
    /// Too small to be booked.
    Immaterial,
    Positive,
    Negative,
}

/// A posting of a figure to an account, as it is or negated.
#[derive(Debug, Clone)]
pub struct FigurePosting {
    pub account: Account,
    pub figure: Figure,
    pub negated: bool,
}

/// An entry that a decorator adds.
#[derive(Debug)]
pub struct FigureEntry {
    pub date: Date,
    pub comment: String,
    pub postings: Vec<FigurePosting>,
}

/// An added entry as its date, comment and postings.
pub struct FigureEntryView {
    pub date: Date,
    pub comment: Seq<char>,
    pub postings: Seq<FigurePosting>,
}

impl View for FigureEntry {
    type V = FigureEntryView;

    open spec fn view(&self) -> FigureEntryView {
        FigureEntryView { date: self.date, comment: self.comment@, postings: self.postings@ }
    }
}

/// The amount that the transaction carries on with after a decorator.
#[derive(Debug, Clone, Copy, PartialEq, Eq, Structural)]
pub enum DecoratedAmount {
    Unchanged,
    /// The amount without its VAT: the amount divided by 1.1.
    WithoutVat,
    /// The refund that had been set aside, with the sign of the amount.
    SetAside,
    /// The amount converted into the main commodity at the rate of the
    /// payment date; the transaction then carries the main commodity.
    Converted,
}

/// What a decorator does to a transaction: the amount it carries on with,
/// the note attached to it, and the entries added after it.
#[derive(Debug)]
pub struct Decoration {
    pub amount: DecoratedAmount,
    pub annotation: Option<Annotation>,
    pub entries: Vec<FigureEntry>,
}

pub struct DecorationView {
    pub amount: DecoratedAmount,
    pub annotation: Option<Annotation>,
    pub entries: Seq<FigureEntryView>,
}

impl View for Decoration {
    type V = DecorationView;

    open spec fn view(&self) -> DecorationView {
        DecorationView {
            amount: self.amount,
            annotation: self.annotation,
            entries: Seq::new(self.entries@.len(), |k: int| self.entries@[k]@),
        }
    }
}

/// The accounts that the standard decorators post to besides the backing
/// account.
pub struct DecoratorAccounts {
    pub payment_fees: Account,
    pub foreign_transaction_fee: Account,
    pub realized_fx_gain: Account,
    pub realized_fx_loss: Account,
    pub vat_pending_receipt: Account,
    pub vat_payable: Account,
    pub vat_receivable: Account,
    pub vat_adjustment_income: Account,
    pub vat_adjustment_expense: Account,
}

/// Each of `s` is the standard account of that name.
pub open spec fn standard_decorator_accounts(s: DecoratorAccounts) -> bool {
    &&& s.payment_fees matches Account::Expense(a) && name_view(a.0) == Some("PaymentFees"@)
        && a.1 == ExpenseClassification::GeneralAdministrativeExpenses
    &&& s.foreign_transaction_fee matches Account::Expense(a) && name_view(a.0) == Some(
        "ForeignTransactionFee"@,
    ) && a.1 == ExpenseClassification::GeneralAdministrativeExpenses
    &&& s.realized_fx_gain matches Account::Income(a) && a.0 is None && a.1
        == IncomeClassification::RealizedFxGain
    &&& s.realized_fx_loss matches Account::Expense(a) && a.0 is None && a.1
        == ExpenseClassification::RealizedFxLoss
    &&& s.vat_pending_receipt matches Account::Asset(a) && name_view(a.0) == Some(
        "VatPendingReceipt"@,
    ) && a.1 == AssetClassification::OtherCurrentAssets
    &&& s.vat_payable matches Account::Liability(a) && name_view(a.0) == Some("VatPayable"@) && a.1
        == LiabilityClassification::OtherCurrentLiabilities
    &&& s.vat_receivable matches Account::Asset(a) && name_view(a.0) == Some("VatReceivable"@)
        && a.1 == AssetClassification::OtherCurrentAssets
    &&& s.vat_adjustment_income matches Account::Income(a) && a.0 is None && a.1
        == IncomeClassification::VatAdjustmentIncome
    &&& s.vat_adjustment_expense matches Account::Expense(a) && a.0 is None && a.1
        == ExpenseClassification::VatAdjustmentExpense
}

pub open spec fn figure(account: Account, f: Figure, negated: bool) -> FigurePosting {
    FigurePosting { account, figure: f, negated }
}

/// An entry of two postings.
pub open spec fn figure_entry(
    date: Date,
    comment: Seq<char>,
    first: FigurePosting,
    second: FigurePosting,
) -> FigureEntryView {
    FigureEntryView { date, comment, postings: seq![first, second] }
}

/// The entry's postings carry one figure, once as it is and once negated,
/// so that they sum to zero.
pub open spec fn figure_entry_balanced(e: FigureEntryView) -> bool {
    &&& e.postings.len() == 2
    &&& e.postings[0].figure == e.postings[1].figure
    &&& e.postings[0].negated != e.postings[1].negated
}

pub open spec fn decoration_balanced(d: DecorationView) -> bool {
    forall|k: int| 0 <= k < d.entries.len() ==> figure_entry_balanced(#[trigger] d.entries[k])
}

/// A payment fee: the fee leaves the backing account for the payment fees
/// on the payment date; the transaction itself is unchanged.
pub open spec fn payment_fee_decoration(payment: Date, backing: Account, s: DecoratorAccounts) -> DecorationView {
    DecorationView {
        amount: DecoratedAmount::Unchanged,
        annotation: None,
        entries: seq![
            figure_entry(
                payment,
                "Payment fee"@,
                figure(backing, Figure::Fee, true),
                figure(s.payment_fees, Figure::Fee, false),
            ),
        ],
    }
}

/// How Korean VAT is accounted for a transaction.
#[derive(Debug, Clone, Copy, PartialEq, Eq, Structural)]
pub enum VatKoreaLogic {
    /// The VAT is set aside until a proper invoice comes.
    AwaitingInvoice,
    /// The VAT is set aside, and reclassified on the invoice's date.
    Recoverable { invoice_date: Date },
    /// The VAT cannot be claimed: the whole cost stays in the books.
    Unrecoverable,
    /// VAT charged on a reverse-charge basis, exempt from proxy payment.
    ReverseChargeExempt,
    /// A VAT refund: what differs from the refund set aside is an
    /// adjustment.
    RefundAdjustment,
}

impl VatKoreaLogic {
    pub fn awaiting_invoice() -> (r: Result<Self, Error>)
        ensures
            r == Ok::<Self, Error>(VatKoreaLogic::AwaitingInvoice),
    {
        Ok(VatKoreaLogic::AwaitingInvoice)
    }

    /// Recoverable VAT whose invoice is dated `invoice_date`, written
    /// `YYYY-MM-DD`.
    pub fn recoverable(invoice_date: &str) -> (r: Result<Self, Error>)
        ensures
            match chrono_parse_ymd(invoice_date@) {
                Some((y, m, d)) => r == Ok::<Self, Error>(
                    VatKoreaLogic::Recoverable { invoice_date: Date { year: y, month: m, day: d } },
                ),
                None => r matches Err(Error::InvalidIsoDate { date }) && date@ == invoice_date@,
            },
    {
        let d = parse_iso_date(invoice_date)?;
        Ok(VatKoreaLogic::Recoverable { invoice_date: d })
    }

    pub fn unrecoverable() -> (r: Result<Self, Error>)
        ensures
            r == Ok::<Self, Error>(VatKoreaLogic::Unrecoverable),
    {
        Ok(VatKoreaLogic::Unrecoverable)
    }

    pub fn reverse_charge_exempt() -> (r: Result<Self, Error>)
        ensures
            r == Ok::<Self, Error>(VatKoreaLogic::ReverseChargeExempt),
    {
        Ok(VatKoreaLogic::ReverseChargeExempt)
    }

    /// A refund, of which the caller keeps the amount that had been set
    /// aside.
    pub fn refund_adjustment() -> (r: Result<Self, Error>)
        ensures
            r == Ok::<Self, Error>(VatKoreaLogic::RefundAdjustment),
    {
        Ok(VatKoreaLogic::RefundAdjustment)
    }
}

/// The VAT is moved out of the transaction on the payment date: the backing
/// account takes the VAT back and the VAT awaiting a receipt takes it.
pub open spec fn vat_awaiting_entry(payment: Date, backing: Account, s: DecoratorAccounts) -> FigureEntryView {
    figure_entry(
        payment,
        "VAT awaiting invoice"@,
        figure(backing, Figure::Vat, false),
        figure(s.vat_pending_receipt, Figure::Vat, true),
    )
}

/// What Korean VAT does to a transaction paid on `payment` from `backing`.
/// `vat_positive` says whether the VAT is above zero (VAT on income, owed);
/// `discrepancy` weighs the refund less what was set aside.
pub open spec fn vat_korea_decoration(
    logic: VatKoreaLogic,
    payment: Date,
    backing: Account,
    vat_positive: bool,
    discrepancy: Weight,
    s: DecoratorAccounts,
) -> DecorationView {
    match logic {
        VatKoreaLogic::AwaitingInvoice => DecorationView {
            amount: DecoratedAmount::WithoutVat,
            annotation: Some(Annotation::VatKorea),
            entries: seq![vat_awaiting_entry(payment, backing, s)],
        },
        VatKoreaLogic::Recoverable { invoice_date } => DecorationView {
            amount: DecoratedAmount::WithoutVat,
            annotation: Some(Annotation::VatKorea),
            entries: seq![
                vat_awaiting_entry(payment, backing, s),
                figure_entry(
                    invoice_date,
                    "VAT invoice received"@,
                    figure(s.vat_pending_receipt, Figure::Vat, false),
                    figure(
                        if vat_positive {
                            s.vat_payable
                        } else {
                            s.vat_receivable
                        },
                        Figure::Vat,
                        true,
                    ),
                ),
            ],
        },
        VatKoreaLogic::Unrecoverable => DecorationView {
            amount: DecoratedAmount::Unchanged,
            annotation: Some(Annotation::VatKoreaUnrecoverable),
            entries: seq![],
        },
        VatKoreaLogic::ReverseChargeExempt => DecorationView {
            amount: DecoratedAmount::Unchanged,
            annotation: Some(Annotation::VatKoreaReverseChargeExempt),
            entries: seq![],
        },
        VatKoreaLogic::RefundAdjustment => DecorationView {
            amount: DecoratedAmount::SetAside,
            annotation: None,
            entries: match discrepancy {
                Weight::Immaterial => seq![],
                _ => seq![
                    figure_entry(
                        payment,
                        "VAT refund adjustment"@,
                        figure(
                            if discrepancy == Weight::Positive {
                                s.vat_adjustment_income
                            } else {
                                s.vat_adjustment_expense
                            },
                            Figure::Discrepancy,
                            true,
                        ),
                        figure(backing, Figure::Discrepancy, false),
                    ),
                ],
            },
        },
    }
}

/// How a payment in a foreign currency by card is accounted.
#[derive(Debug, Clone, Copy, PartialEq, Eq, Structural)]
pub enum CardFxLogic {
    /// Settled on `settle_date` at an amount that may differ, with a fee
    /// that is not known: the difference is a gain or a loss on that date.
    DelayedSettleUnknownFee { settle_date: Date },
    /// Charged at once with a known fee, which is booked as an expense; what
    /// else differs is a gain or a loss.
    ImmediateWithFee,
}

impl CardFxLogic {
    /// A delayed settlement on `settle_date`, written `YYYY-MM-DD`.
    pub fn delayed_settle_unknown_fee(settle_date: &str) -> (r: Result<Self, Error>)
        ensures
            match chrono_parse_ymd(settle_date@) {
                Some((y, m, d)) => r == Ok::<Self, Error>(
                    CardFxLogic::DelayedSettleUnknownFee { settle_date: Date { year: y, month: m, day: d } },
                ),
                None => r matches Err(Error::InvalidIsoDate { date }) && date@ == settle_date@,
            },
    {
        let d = parse_iso_date(settle_date)?;
        Ok(CardFxLogic::DelayedSettleUnknownFee { settle_date: d })
    }

    pub fn immediate_with_fee() -> (r: Result<Self, Error>)
        ensures
            r == Ok::<Self, Error>(CardFxLogic::ImmediateWithFee),
    {
        Ok(CardFxLogic::ImmediateWithFee)
    }
}

/// The correction of an exchange-rate discrepancy on `date`: the backing
/// account takes the discrepancy, and a gain (positive) or a loss takes it
/// negated.
pub open spec fn fx_correction_entry(date: Date, backing: Account, positive: bool, s: DecoratorAccounts) -> FigureEntryView {
    figure_entry(
        date,
        "Correct FX discrepancy"@,
        figure(backing, Figure::Discrepancy, false),
        figure(
            if positive {
                s.realized_fx_gain
            } else {
                s.realized_fx_loss
            },
            Figure::Discrepancy,
            true,
        ),
    )
}

/// The correction entries of a discrepancy of weight `w`: none when it is
/// immaterial.
pub open spec fn fx_corrections(date: Date, backing: Account, w: Weight, s: DecoratorAccounts) -> Seq<FigureEntryView> {
    match w {
        Weight::Immaterial => seq![],
        _ => seq![fx_correction_entry(date, backing, w == Weight::Positive, s)],
    }
}

/// What a card payment in a foreign currency does to a transaction paid on
/// `payment` from `backing`: its amount is converted and it is noted; `fee`
/// weighs a known fee and `discrepancy` the difference found.
pub open spec fn card_fx_decoration(
    logic: CardFxLogic,
    payment: Date,
    backing: Account,
    fee: Weight,
    discrepancy: Weight,
    s: DecoratorAccounts,
) -> DecorationView {
    DecorationView {
        amount: DecoratedAmount::Converted,
        annotation: Some(Annotation::CardFx),
        entries: match logic {
            CardFxLogic::DelayedSettleUnknownFee { settle_date } => fx_corrections(
                settle_date,
                backing,
                discrepancy,
                s,
            ),
            CardFxLogic::ImmediateWithFee => (match fee {
                Weight::Immaterial => seq![],
                _ => seq![
                    figure_entry(
                        payment,
                        "Foreign transaction fee"@,
                        figure(backing, Figure::Fee, true),
                        figure(s.foreign_transaction_fee, Figure::Fee, false),
                    ),
                ],
            }) + fx_corrections(payment, backing, discrepancy, s),
        },
    }
}

fn the_accounts() -> (r: DecoratorAccounts)
    ensures
        standard_decorator_accounts(r),
{
    DecoratorAccounts {
        payment_fees: Account::Expense(payment_fees()),
        foreign_transaction_fee: Account::Expense(foreign_transaction_fee()),
        realized_fx_gain: Account::Income(realized_fx_gain()),
        realized_fx_loss: Account::Expense(realized_fx_loss()),
        vat_pending_receipt: Account::Asset(vat_pending_receipt()),
        vat_payable: Account::Liability(vat_payable()),
        vat_receivable: Account::Asset(vat_receivable()),
        vat_adjustment_income: Account::Income(vat_adjustment_income()),
        vat_adjustment_expense: Account::Expense(vat_adjustment_expense()),
    }
}

fn pair(date: Date, comment: &str, first: FigurePosting, second: FigurePosting) -> (r: FigureEntry)
    ensures
        r@ == figure_entry(date, comment@, first, second),
{
    let mut postings: Vec<FigurePosting> = Vec::new();
    postings.push(first);
    postings.push(second);
    assert(postings@ =~= seq![first, second]);
    FigureEntry { date, comment: comment.to_string(), postings }
}

fn post(account: &Account, figure: Figure, negated: bool) -> (r: FigurePosting)
    ensures
        r == (FigurePosting { account: *account, figure, negated }),
{
    FigurePosting { account: account.duplicate(), figure, negated }
}

/// What a payment fee does to a transaction paid on `payment` from
/// `backing`.
pub fn plan_payment_fee(payment: Date, backing: Account) -> (r: Decoration)
    ensures
        exists|s: DecoratorAccounts|
            standard_decorator_accounts(s) && r@ == payment_fee_decoration(payment, backing, s),
        decoration_balanced(r@),
{
    let s = the_accounts();
    let mut entries: Vec<FigureEntry> = Vec::new();
    entries.push(
        pair(payment, "Payment fee", post(&backing, Figure::Fee, true), post(&s.payment_fees, Figure::Fee, false)),
    );
    let r = Decoration { amount: DecoratedAmount::Unchanged, annotation: None, entries };
    assert(r@.entries =~= payment_fee_decoration(payment, backing, s).entries);
    r
}

/// What Korean VAT, accounted by `logic`, does to a transaction paid on
/// `payment` from `backing`. `vat_positive` says whether the VAT in the
/// amount is above zero; `discrepancy` weighs the refund less the refund
/// set aside, booked when above 0.01 in size.
pub fn plan_vat_korea(
    logic: &VatKoreaLogic,
    payment: Date,
    backing: Account,
    vat_positive: bool,
    discrepancy: Weight,
) -> (r: Decoration)
    ensures
        exists|s: DecoratorAccounts|
            standard_decorator_accounts(s) && r@ == vat_korea_decoration(
                *logic,
                payment,
                backing,
                vat_positive,
                discrepancy,
                s,
            ),
        decoration_balanced(r@),
{
    let s = the_accounts();
    let mut entries: Vec<FigureEntry> = Vec::new();
    let r = match logic {
        VatKoreaLogic::AwaitingInvoice => {
            entries.push(
                pair(
                    payment,
                    "VAT awaiting invoice",
                    post(&backing, Figure::Vat, false),
                    post(&s.vat_pending_receipt, Figure::Vat, true),
                ),
            );
            Decoration { amount: DecoratedAmount::WithoutVat, annotation: Some(Annotation::VatKorea), entries }
        },
        VatKoreaLogic::Recoverable { invoice_date } => {
            entries.push(
                pair(
                    payment,
                    "VAT awaiting invoice",
                    post(&backing, Figure::Vat, false),
                    post(&s.vat_pending_receipt, Figure::Vat, true),
                ),
            );
            let settled = if vat_positive {
                &s.vat_payable
            } else {
                &s.vat_receivable
            };
            entries.push(
                pair(
                    *invoice_date,
                    "VAT invoice received",
                    post(&s.vat_pending_receipt, Figure::Vat, false),
                    post(settled, Figure::Vat, true),
                ),
            );
            Decoration { amount: DecoratedAmount::WithoutVat, annotation: Some(Annotation::VatKorea), entries }
        },
        VatKoreaLogic::Unrecoverable => Decoration {
            amount: DecoratedAmount::Unchanged,
            annotation: Some(Annotation::VatKoreaUnrecoverable),
            entries,
        },
        VatKoreaLogic::ReverseChargeExempt => Decoration {
            amount: DecoratedAmount::Unchanged,
            annotation: Some(Annotation::VatKoreaReverseChargeExempt),
            entries,
        },
        VatKoreaLogic::RefundAdjustment => {
            if discrepancy != Weight::Immaterial {
                let adjustment = if discrepancy == Weight::Positive {
                    &s.vat_adjustment_income
                } else {
                    &s.vat_adjustment_expense
                };
                entries.push(
                    pair(
                        payment,
                        "VAT refund adjustment",
                        post(adjustment, Figure::Discrepancy, true),
                        post(&backing, Figure::Discrepancy, false),
                    ),
                );
            }
            Decoration { amount: DecoratedAmount::SetAside, annotation: None, entries }
        },
    };
    assert(r@.entries =~= vat_korea_decoration(*logic, payment, backing, vat_positive, discrepancy, s).entries);
    r
}

/// What a card payment in a foreign currency, accounted by `logic`, does to
/// a transaction paid on `payment` from `backing`. `fee` weighs the known
/// fee and `discrepancy` the difference found, each booked when at least
/// the smallest amount of the main commodity.
pub fn plan_card_fx(logic: &CardFxLogic, payment: Date, backing: Account, fee: Weight, discrepancy: Weight) -> (r:
    Decoration)
    ensures
        exists|s: DecoratorAccounts|
            standard_decorator_accounts(s) && r@ == card_fx_decoration(
                *logic,
                payment,
                backing,
                fee,
                discrepancy,
                s,
            ),
        decoration_balanced(r@),
{
    let s = the_accounts();
    let mut entries: Vec<FigureEntry> = Vec::new();
    let date = match logic {
        CardFxLogic::DelayedSettleUnknownFee { settle_date } => *settle_date,
        CardFxLogic::ImmediateWithFee => {
            if fee != Weight::Immaterial {
                entries.push(
                    pair(
                        payment,
                        "Foreign transaction fee",
                        post(&backing, Figure::Fee, true),
                        post(&s.foreign_transaction_fee, Figure::Fee, false),
                    ),
                );
            }
            payment
        },
    };
    if discrepancy != Weight::Immaterial {
        let result_account = if discrepancy == Weight::Positive {
            &s.realized_fx_gain
        } else {
            &s.realized_fx_loss
        };
        entries.push(
            pair(
                date,
                "Correct FX discrepancy",
                post(&backing, Figure::Discrepancy, false),
                post(result_account, Figure::Discrepancy, true),
            ),
        );
    }
    let r = Decoration { amount: DecoratedAmount::Converted, annotation: Some(Annotation::CardFx), entries };
    assert(r@.entries =~= card_fx_decoration(*logic, payment, backing, fee, discrepancy, s).entries);
    r
}


/// What a posting does to `a` in figure `f`: +1 when it carries `f` to `a`
/// as it is, -1 when negated, else 0.
pub open spec fn figure_posting_effect(p: FigurePosting, a: Account, f: Figure) -> int {
    if p.account == a && p.figure == f {
        if p.negated {
            -1
        } else {
            1
        }
    } else {
        0
    }
}

pub open spec fn figure_postings_effect(ps: Seq<FigurePosting>, a: Account, f: Figure) -> int
    decreases ps.len(),
{
    if ps.len() == 0 {
        0
    } else {
        figure_postings_effect(ps.drop_last(), a, f) + figure_posting_effect(ps.last(), a, f)
    }
}

/// How many times, signed, the entries `es` carry figure `f` to `a`.
pub open spec fn figure_effect(es: Seq<FigureEntryView>, a: Account, f: Figure) -> int
    decreases es.len(),
{
    if es.len() == 0 {
        0
    } else {
        figure_effect(es.drop_last(), a, f) + figure_postings_effect(es.last().postings, a, f)
    }
}

proof fn lemma_figure_pair(p: FigurePosting, q: FigurePosting, a: Account, f: Figure)
    ensures
        figure_postings_effect(seq![p, q], a, f) == figure_posting_effect(p, a, f) + figure_posting_effect(q, a, f),
{
    reveal_with_fuel(figure_postings_effect, 3);
    assert(seq![p, q].drop_last() =~= seq![p]);
    assert(seq![p].drop_last() =~= Seq::<FigurePosting>::empty());
}

proof fn lemma_figure_entry_effect(date: Date, c: Seq<char>, p: FigurePosting, q: FigurePosting, a: Account, f: Figure)
    ensures
        figure_postings_effect(figure_entry(date, c, p, q).postings, a, f) == figure_posting_effect(p, a, f)
            + figure_posting_effect(q, a, f),
{
    lemma_figure_pair(p, q, a, f);
}

proof fn lemma_effect_none(a: Account, f: Figure)
    ensures
        figure_effect(Seq::<FigureEntryView>::empty(), a, f) == 0,
{
}

proof fn lemma_effect_one(e: FigureEntryView, a: Account, f: Figure)
    ensures
        figure_effect(seq![e], a, f) == figure_postings_effect(e.postings, a, f),
{
    reveal_with_fuel(figure_effect, 2);
    assert(seq![e].drop_last() =~= Seq::<FigureEntryView>::empty());
}

proof fn lemma_effect_two(e: FigureEntryView, g: FigureEntryView, a: Account, f: Figure)
    ensures
        figure_effect(seq![e, g], a, f) == figure_postings_effect(e.postings, a, f) + figure_postings_effect(
            g.postings,
            a,
            f,
        ),
{
    reveal_with_fuel(figure_effect, 3);
    assert(seq![e, g].drop_last() =~= seq![e]);
    assert(seq![e].drop_last() =~= Seq::<FigureEntryView>::empty());
}

/// A payment fee leaves the backing account and is booked to the payment
/// fees, on the payment date, and the transaction keeps its amount.
pub proof fn lemma_payment_fee_effect(payment: Date, backing: Account, s: DecoratorAccounts)
    requires
        standard_decorator_accounts(s),
        backing != s.payment_fees,
    ensures
        figure_effect(payment_fee_decoration(payment, backing, s).entries, backing, Figure::Fee) == -1,
        figure_effect(payment_fee_decoration(payment, backing, s).entries, s.payment_fees, Figure::Fee) == 1,
        forall|k: int|
            0 <= k < payment_fee_decoration(payment, backing, s).entries.len() ==> (#[trigger] payment_fee_decoration(
                payment,
                backing,
                s,
            ).entries[k]).date == payment,
        payment_fee_decoration(payment, backing, s).amount == DecoratedAmount::Unchanged,
{
    let es = payment_fee_decoration(payment, backing, s).entries;
    let e = es[0];
    lemma_effect_one(e, backing, Figure::Fee);
    lemma_effect_one(e, s.payment_fees, Figure::Fee);
    lemma_figure_pair(e.postings[0], e.postings[1], backing, Figure::Fee);
    lemma_figure_pair(e.postings[0], e.postings[1], s.payment_fees, Figure::Fee);
}

/// A VAT refund: the backing account takes the discrepancy (the refund
/// less what was set aside) as it is, and the adjustment takes it negated:
/// an income when the refund is larger, an expense when it is smaller;
/// nothing is booked when the discrepancy is immaterial; the transaction
/// carries on with the refund that was set aside.
pub proof fn lemma_vat_refund_effect(
    payment: Date,
    backing: Account,
    vat_positive: bool,
    discrepancy: Weight,
    s: DecoratorAccounts,
)
    requires
        standard_decorator_accounts(s),
        backing != s.vat_adjustment_income,
        backing != s.vat_adjustment_expense,
    ensures
        figure_effect(
            vat_korea_decoration(VatKoreaLogic::RefundAdjustment, payment, backing, vat_positive, discrepancy, s).entries,
            backing,
            Figure::Discrepancy,
        ) == if discrepancy == Weight::Immaterial {
            0int
        } else {
            1
        },
        figure_effect(
            vat_korea_decoration(VatKoreaLogic::RefundAdjustment, payment, backing, vat_positive, discrepancy, s).entries,
            s.vat_adjustment_income,
            Figure::Discrepancy,
        ) == if discrepancy == Weight::Positive {
            -1int
        } else {
            0
        },
        figure_effect(
            vat_korea_decoration(VatKoreaLogic::RefundAdjustment, payment, backing, vat_positive, discrepancy, s).entries,
            s.vat_adjustment_expense,
            Figure::Discrepancy,
        ) == if discrepancy == Weight::Negative {
            -1int
        } else {
            0
        },
        vat_korea_decoration(VatKoreaLogic::RefundAdjustment, payment, backing, vat_positive, discrepancy, s).amount
            == DecoratedAmount::SetAside,
{
    let es = vat_korea_decoration(VatKoreaLogic::RefundAdjustment, payment, backing, vat_positive, discrepancy, s).entries;
    assert(s.vat_adjustment_income != s.vat_adjustment_expense);
    if discrepancy != Weight::Immaterial {
        let e = es[0];
        assert(es == seq![e]);
        lemma_effect_one(e, backing, Figure::Discrepancy);
        lemma_effect_one(e, s.vat_adjustment_income, Figure::Discrepancy);
        lemma_effect_one(e, s.vat_adjustment_expense, Figure::Discrepancy);
        lemma_figure_pair(e.postings[0], e.postings[1], backing, Figure::Discrepancy);
        lemma_figure_pair(e.postings[0], e.postings[1], s.vat_adjustment_income, Figure::Discrepancy);
        lemma_figure_pair(e.postings[0], e.postings[1], s.vat_adjustment_expense, Figure::Discrepancy);
    } else {
        assert(es == Seq::<FigureEntryView>::empty());
    }
}

/// VAT set aside on payment: the backing account takes the VAT back as it
/// is and the VAT awaiting a receipt takes it negated, on the payment date;
/// once the invoice of recoverable VAT is received, the VAT awaiting a
/// receipt is cleared and the VAT is owed (above zero) or receivable. The
/// transaction carries on with the amount without its VAT.
pub proof fn lemma_vat_set_aside_effect(
    logic: VatKoreaLogic,
    payment: Date,
    backing: Account,
    vat_positive: bool,
    discrepancy: Weight,
    s: DecoratorAccounts,
)
    requires
        standard_decorator_accounts(s),
        logic is AwaitingInvoice || logic is Recoverable,
        backing != s.vat_pending_receipt,
        backing != s.vat_payable,
        backing != s.vat_receivable,
    ensures
        figure_effect(vat_korea_decoration(logic, payment, backing, vat_positive, discrepancy, s).entries, backing, Figure::Vat)
            == 1,
        vat_korea_decoration(logic, payment, backing, vat_positive, discrepancy, s).entries[0].date == payment,
        figure_effect(
            vat_korea_decoration(logic, payment, backing, vat_positive, discrepancy, s).entries,
            s.vat_pending_receipt,
            Figure::Vat,
        ) == if logic is AwaitingInvoice {
            -1int
        } else {
            0
        },
        figure_effect(vat_korea_decoration(logic, payment, backing, vat_positive, discrepancy, s).entries, s.vat_payable, Figure::Vat)
            == if logic is Recoverable && vat_positive {
            -1int
        } else {
            0
        },
        figure_effect(
            vat_korea_decoration(logic, payment, backing, vat_positive, discrepancy, s).entries,
            s.vat_receivable,
            Figure::Vat,
        ) == if logic is Recoverable && !vat_positive {
            -1int
        } else {
            0
        },
        logic matches VatKoreaLogic::Recoverable { invoice_date } ==> vat_korea_decoration(
            logic,
            payment,
            backing,
            vat_positive,
            discrepancy,
            s,
        ).entries[1].date == invoice_date,
        vat_korea_decoration(logic, payment, backing, vat_positive, discrepancy, s).amount == DecoratedAmount::WithoutVat,
{
    let es = vat_korea_decoration(logic, payment, backing, vat_positive, discrepancy, s).entries;
    assert(s.vat_payable != s.vat_receivable);
    assert(s.vat_pending_receipt != s.vat_payable);
    reveal_strlit("VatPendingReceipt");
    reveal_strlit("VatReceivable");
    assert("VatPendingReceipt"@.len() != "VatReceivable"@.len());
    assert(s.vat_pending_receipt != s.vat_receivable);
    let e = es[0];
    lemma_figure_pair(e.postings[0], e.postings[1], backing, Figure::Vat);
    lemma_figure_pair(e.postings[0], e.postings[1], s.vat_pending_receipt, Figure::Vat);
    lemma_figure_pair(e.postings[0], e.postings[1], s.vat_payable, Figure::Vat);
    lemma_figure_pair(e.postings[0], e.postings[1], s.vat_receivable, Figure::Vat);
    if logic is AwaitingInvoice {
        assert(es == seq![e]);
        lemma_effect_one(e, backing, Figure::Vat);
        lemma_effect_one(e, s.vat_pending_receipt, Figure::Vat);
        lemma_effect_one(e, s.vat_payable, Figure::Vat);
        lemma_effect_one(e, s.vat_receivable, Figure::Vat);
    } else {
        let g = es[1];
        assert(es == seq![e, g]);
        lemma_figure_pair(g.postings[0], g.postings[1], backing, Figure::Vat);
        lemma_figure_pair(g.postings[0], g.postings[1], s.vat_pending_receipt, Figure::Vat);
        lemma_figure_pair(g.postings[0], g.postings[1], s.vat_payable, Figure::Vat);
        lemma_figure_pair(g.postings[0], g.postings[1], s.vat_receivable, Figure::Vat);
        lemma_effect_two(e, g, backing, Figure::Vat);
        lemma_effect_two(e, g, s.vat_pending_receipt, Figure::Vat);
        lemma_effect_two(e, g, s.vat_payable, Figure::Vat);
        lemma_effect_two(e, g, s.vat_receivable, Figure::Vat);
    }
}

/// Unrecoverable and exempt VAT book nothing and keep the amount; they only
/// note the transaction.
pub proof fn lemma_vat_note_only(
    logic: VatKoreaLogic,
    payment: Date,
    backing: Account,
    vat_positive: bool,
    discrepancy: Weight,
    s: DecoratorAccounts,
)
    requires
        logic is Unrecoverable || logic is ReverseChargeExempt,
    ensures
        vat_korea_decoration(logic, payment, backing, vat_positive, discrepancy, s).entries.len() == 0,
        vat_korea_decoration(logic, payment, backing, vat_positive, discrepancy, s).amount == DecoratedAmount::Unchanged,
        vat_korea_decoration(logic, payment, backing, vat_positive, discrepancy, s).annotation is Some,
{
}

/// A card payment in a foreign currency: a known fee of an immediate charge
/// leaves the backing account for the foreign transaction fees; a
/// discrepancy is taken by the backing account as it is and negated by a
/// gain (above zero) or a loss; immaterial figures are not booked; the
/// amount is converted.
pub proof fn lemma_card_fx_effect(
    logic: CardFxLogic,
    payment: Date,
    backing: Account,
    fee: Weight,
    discrepancy: Weight,
    s: DecoratorAccounts,
)
    requires
        standard_decorator_accounts(s),
        backing != s.foreign_transaction_fee,
        backing != s.realized_fx_gain,
        backing != s.realized_fx_loss,
    ensures
        figure_effect(card_fx_decoration(logic, payment, backing, fee, discrepancy, s).entries, backing, Figure::Fee)
            == if logic is ImmediateWithFee && fee != Weight::Immaterial {
            -1int
        } else {
            0
        },
        figure_effect(
            card_fx_decoration(logic, payment, backing, fee, discrepancy, s).entries,
            s.foreign_transaction_fee,
            Figure::Fee,
        ) == if logic is ImmediateWithFee && fee != Weight::Immaterial {
            1int
        } else {
            0
        },
        figure_effect(card_fx_decoration(logic, payment, backing, fee, discrepancy, s).entries, backing, Figure::Discrepancy)
            == if discrepancy != Weight::Immaterial {
            1int
        } else {
            0
        },
        figure_effect(
            card_fx_decoration(logic, payment, backing, fee, discrepancy, s).entries,
            s.realized_fx_gain,
            Figure::Discrepancy,
        ) == if discrepancy == Weight::Positive {
            -1int
        } else {
            0
        },
        figure_effect(
            card_fx_decoration(logic, payment, backing, fee, discrepancy, s).entries,
            s.realized_fx_loss,
            Figure::Discrepancy,
        ) == if discrepancy == Weight::Negative {
            -1int
        } else {
            0
        },
        card_fx_decoration(logic, payment, backing, fee, discrepancy, s).amount == DecoratedAmount::Converted,
{
    let es = card_fx_decoration(logic, payment, backing, fee, discrepancy, s).entries;
    assert(s.realized_fx_gain != s.realized_fx_loss);
    assert(s.foreign_transaction_fee != s.realized_fx_gain);
    assert forall|k: int, a: Account, f: Figure| 0 <= k < es.len() implies #[trigger] figure_postings_effect(
        es[k].postings,
        a,
        f,
    ) == figure_posting_effect(es[k].postings[0], a, f) + figure_posting_effect(es[k].postings[1], a, f) by {
        assert(es[k].postings == seq![es[k].postings[0], es[k].postings[1]]);
        lemma_figure_pair(es[k].postings[0], es[k].postings[1], a, f);
    }
    if es.len() == 1 {
        assert(es == seq![es[0]]);
        assert forall|a: Account, f: Figure| #[trigger] figure_effect(es, a, f) == figure_postings_effect(es[0].postings, a, f) by {
            lemma_effect_one(es[0], a, f);
        }
    } else if es.len() == 2 {
        assert(es == seq![es[0], es[1]]);
        assert forall|a: Account, f: Figure| #[trigger] figure_effect(es, a, f) == figure_postings_effect(es[0].postings, a, f)
            + figure_postings_effect(es[1].postings, a, f) by {
            lemma_effect_two(es[0], es[1], a, f);
        }
    } else {
        assert(es.len() == 0);
    }
}

} // verus!
