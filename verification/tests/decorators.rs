use ifrs_hledger::account::{asset, Account, AssetClassification};
use ifrs_hledger::annotation::Annotation;
use ifrs_hledger::date::Date;
use ifrs_hledger::decorator_plan::{
    plan_card_fx, plan_payment_fee, plan_vat_korea, CardFxLogic, DecoratedAmount, Decoration,
    Figure, VatKoreaLogic, Weight,
};
use ifrs_hledger::errors::Error;
use ifrs_hledger::standard_accounts::{
    foreign_transaction_fee, payment_fees, realized_fx_gain, realized_fx_loss,
    vat_adjustment_expense, vat_adjustment_income, vat_payable, vat_pending_receipt,
    vat_receivable,
};

fn d(y: i32, m: u32, dd: u32) -> Date {
    Date::from_ymd_opt(y, m, dd).unwrap()
}

fn bank() -> Account {
    asset("Bank", AssetClassification::CashAndCashEquivalents).into()
}

/// Each entry as its date, comment and postings (account, figure, negated).
fn entries(r: &Decoration) -> Vec<(Date, String, Vec<(Account, Figure, bool)>)> {
    r.entries
        .iter()
        .map(|e| {
            (
                e.date,
                e.comment.clone(),
                e.postings.iter().map(|p| (p.account.clone(), p.figure, p.negated)).collect(),
            )
        })
        .collect()
}

fn balanced(r: &Decoration) -> bool {
    r.entries.iter().all(|e| {
        e.postings.len() == 2
            && e.postings[0].figure == e.postings[1].figure
            && e.postings[0].negated != e.postings[1].negated
    })
}

#[test]
fn payment_fee_moves_the_fee_out_of_the_backing_account() {
    let r = plan_payment_fee(d(2024, 3, 5), bank());
    assert_eq!(r.amount, DecoratedAmount::Unchanged);
    assert_eq!(r.annotation, None);
    assert_eq!(
        entries(&r),
        vec![(
            d(2024, 3, 5),
            "Payment fee".to_string(),
            vec![(bank(), Figure::Fee, true), (Account::Expense(payment_fees()), Figure::Fee, false)],
        )]
    );
    assert!(balanced(&r));
}

#[test]
fn vat_awaiting_invoice_sets_the_vat_aside() {
    let logic = VatKoreaLogic::awaiting_invoice().unwrap();
    let r = plan_vat_korea(&logic, d(2024, 3, 5), bank(), false, Weight::Immaterial);
    assert_eq!(r.amount, DecoratedAmount::WithoutVat);
    assert_eq!(r.annotation, Some(Annotation::VatKorea));
    assert_eq!(
        entries(&r),
        vec![(
            d(2024, 3, 5),
            "VAT awaiting invoice".to_string(),
            vec![(bank(), Figure::Vat, false), (Account::Asset(vat_pending_receipt()), Figure::Vat, true)],
        )]
    );
}

#[test]
fn recoverable_vat_is_reclassified_on_the_invoice_date() {
    let logic = VatKoreaLogic::recoverable("2024-04-10").unwrap();
    let paid = plan_vat_korea(&logic, d(2024, 3, 5), bank(), false, Weight::Immaterial);
    let e = entries(&paid);
    assert_eq!(e.len(), 2);
    assert_eq!(
        e[1],
        (
            d(2024, 4, 10),
            "VAT invoice received".to_string(),
            vec![
                (Account::Asset(vat_pending_receipt()), Figure::Vat, false),
                (Account::Asset(vat_receivable()), Figure::Vat, true),
            ],
        )
    );
    let received = plan_vat_korea(&logic, d(2024, 3, 5), bank(), true, Weight::Immaterial);
    assert_eq!(entries(&received)[1].2[1].0, Account::Liability(vat_payable()));
    assert!(balanced(&paid) && balanced(&received));
}

#[test]
fn recoverable_vat_needs_an_iso_invoice_date() {
    match VatKoreaLogic::recoverable("10/04/2024") {
        Err(Error::InvalidIsoDate { date }) => assert_eq!(date, "10/04/2024"),
        other => panic!("unexpected {:?}", other),
    }
}

#[test]
fn unrecoverable_and_exempt_vat_only_add_a_note() {
    let u = plan_vat_korea(&VatKoreaLogic::unrecoverable().unwrap(), d(2024, 3, 5), bank(), true, Weight::Positive);
    assert_eq!(u.amount, DecoratedAmount::Unchanged);
    assert_eq!(u.annotation, Some(Annotation::VatKoreaUnrecoverable));
    assert!(u.entries.is_empty());
    let x = plan_vat_korea(&VatKoreaLogic::reverse_charge_exempt().unwrap(), d(2024, 3, 5), bank(), true, Weight::Positive);
    assert_eq!(x.annotation, Some(Annotation::VatKoreaReverseChargeExempt));
    assert!(x.entries.is_empty());
}

#[test]
fn vat_refund_adjusts_only_a_material_discrepancy() {
    let logic = VatKoreaLogic::refund_adjustment().unwrap();
    let none = plan_vat_korea(&logic, d(2024, 7, 25), bank(), true, Weight::Immaterial);
    assert_eq!(none.amount, DecoratedAmount::SetAside);
    assert_eq!(none.annotation, None);
    assert!(none.entries.is_empty());
    let gain = plan_vat_korea(&logic, d(2024, 7, 25), bank(), true, Weight::Positive);
    assert_eq!(
        entries(&gain),
        vec![(
            d(2024, 7, 25),
            "VAT refund adjustment".to_string(),
            vec![
                (Account::Income(vat_adjustment_income()), Figure::Discrepancy, true),
                (bank(), Figure::Discrepancy, false),
            ],
        )]
    );
    let loss = plan_vat_korea(&logic, d(2024, 7, 25), bank(), true, Weight::Negative);
    assert_eq!(entries(&loss)[0].2[0].0, Account::Expense(vat_adjustment_expense()));
}

#[test]
fn delayed_card_settlement_corrects_on_the_settle_date() {
    let logic = CardFxLogic::delayed_settle_unknown_fee("2024-03-08").unwrap();
    let r = plan_card_fx(&logic, d(2024, 3, 5), bank(), Weight::Positive, Weight::Negative);
    assert_eq!(r.amount, DecoratedAmount::Converted);
    assert_eq!(r.annotation, Some(Annotation::CardFx));
    assert_eq!(
        entries(&r),
        vec![(
            d(2024, 3, 8),
            "Correct FX discrepancy".to_string(),
            vec![
                (bank(), Figure::Discrepancy, false),
                (Account::Expense(realized_fx_loss()), Figure::Discrepancy, true),
            ],
        )]
    );
    let settled = plan_card_fx(&logic, d(2024, 3, 5), bank(), Weight::Positive, Weight::Immaterial);
    assert!(settled.entries.is_empty());
}

#[test]
fn immediate_card_charge_books_fee_then_discrepancy() {
    let logic = CardFxLogic::immediate_with_fee().unwrap();
    let r = plan_card_fx(&logic, d(2024, 3, 5), bank(), Weight::Positive, Weight::Positive);
    assert_eq!(
        entries(&r),
        vec![
            (
                d(2024, 3, 5),
                "Foreign transaction fee".to_string(),
                vec![
                    (bank(), Figure::Fee, true),
                    (Account::Expense(foreign_transaction_fee()), Figure::Fee, false),
                ],
            ),
            (
                d(2024, 3, 5),
                "Correct FX discrepancy".to_string(),
                vec![
                    (bank(), Figure::Discrepancy, false),
                    (Account::Income(realized_fx_gain()), Figure::Discrepancy, true),
                ],
            ),
        ]
    );
    assert!(balanced(&r));
    let no_fee = plan_card_fx(&logic, d(2024, 3, 5), bank(), Weight::Immaterial, Weight::Immaterial);
    assert!(no_fee.entries.is_empty());
}
