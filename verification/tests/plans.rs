use ifrs_hledger::reimbursement::{plan_reimbursement, ReimbursedPart, ReimbursementRefusal};
use ifrs_hledger::account::{
    asset, equity, expense, liability, Account, AssetClassification, EquityClassification,
    ExpenseClassification, LiabilityClassification,
};
use ifrs_hledger::date::Date;
use ifrs_hledger::errors::Error;
use ifrs_hledger::posting_plan::{
    plan_capitalize, plan_clear_vat, plan_common_stock, plan_cost_of_equity,
    plan_immaterial_expense, plan_simple_expense, BalanceShare, PlannedTransaction, Side,
};
use ifrs_hledger::spec_types::CommonStockWhileUnpaid;

fn d(y: i32, m: u32, dd: u32) -> Date {
    Date::from_ymd_opt(y, m, dd).unwrap()
}

fn bank() -> Account {
    asset("Bank", AssetClassification::CashAndCashEquivalents).into()
}

fn balanced(ts: &[PlannedTransaction]) -> bool {
    ts.iter().all(|t| {
        let debits = t.postings.iter().filter(|p| p.side == Side::Debit).count();
        let credits = t.postings.iter().filter(|p| p.side == Side::Credit).count();
        debits == credits
    })
}

fn ledgers(t: &PlannedTransaction) -> Vec<(String, Side)> {
    t.postings.iter().map(|p| (p.account.ledger(), p.side)).collect()
}

#[test]
fn simple_expense_paid_on_accrual_is_one_entry() {
    let e: Account = expense("Fees", ExpenseClassification::GeneralAdministrativeExpenses).into();
    let pre: Account = asset("Fees", AssetClassification::PrepaidExpenses).into();
    let pay: Account = liability("Fees", LiabilityClassification::AccountsPayable).into();
    let plan = plan_simple_expense(d(2024, 1, 5), d(2024, 1, 5), e.clone(), pre.clone(), pay.clone(), bank());
    assert_eq!(plan.len(), 1);
    assert_eq!(plan[0].comment, None);
    assert_eq!(ledgers(&plan[0]), vec![(bank().ledger(), Side::Credit), (e.ledger(), Side::Debit)]);
    assert!(balanced(&plan));
}

#[test]
fn simple_expense_prepaid_and_payable() {
    let e: Account = expense("Fees", ExpenseClassification::GeneralAdministrativeExpenses).into();
    let pre: Account = asset("Fees", AssetClassification::PrepaidExpenses).into();
    let pay: Account = liability("Fees", LiabilityClassification::AccountsPayable).into();
    let prepaid = plan_simple_expense(d(2024, 1, 1), d(2024, 2, 1), e.clone(), pre.clone(), pay.clone(), bank());
    assert_eq!(prepaid.len(), 2);
    assert_eq!(prepaid[0].date, d(2024, 1, 1));
    assert_eq!(prepaid[0].comment.as_deref(), Some("Pre-paid expense"));
    assert_eq!(prepaid[0].postings[1].source_account.as_ref().map(|a| a.ledger()), Some(e.ledger()));
    assert_eq!(prepaid[1].comment.as_deref(), Some("Accrue pre-paid expense"));
    let payable = plan_simple_expense(d(2024, 3, 1), d(2024, 2, 1), e.clone(), pre, pay.clone(), bank());
    assert_eq!(payable[0].date, d(2024, 2, 1));
    assert_eq!(payable[0].comment.as_deref(), Some("Accrue payable expense"));
    assert_eq!(payable[1].comment.as_deref(), Some("Clear payable expense"));
    assert_eq!(ledgers(&payable[1]), vec![(bank().ledger(), Side::Credit), (pay.ledger(), Side::Debit)]);
    assert!(balanced(&prepaid) && balanced(&payable));
}

#[test]
fn capitalized_asset_is_reclassified_when_prepaid() {
    let laptop = asset("Laptop", AssetClassification::PropertyPlantEquipment);
    let pre = asset("Laptop", AssetClassification::PrepaidExpenses);
    let pay: Account = liability("Laptop", LiabilityClassification::AccountsPayable).into();
    let plan = plan_capitalize(d(2024, 1, 1), d(2024, 2, 1), laptop.clone(), pre.clone(), pay.clone(), bank());
    assert_eq!(plan.len(), 2);
    assert_eq!(plan[1].comment.as_deref(), Some("Reclassify pre-paid asset"));
    assert!(plan[1].postings[1].non_cash_reclassification);
    let same = plan_capitalize(d(2024, 1, 1), d(2024, 2, 1), pre.clone(), pre.clone(), pay, bank());
    assert_eq!(same.len(), 1);
    assert!(balanced(&plan) && balanced(&same));
}

#[test]
fn common_stock_cannot_be_prepaid() {
    let founder: Account = equity("Founder", EquityClassification::CommonStock).into();
    let err = plan_common_stock(
        d(2024, 1, 1),
        d(2024, 2, 1),
        founder.clone(),
        CommonStockWhileUnpaid::ReceivableAsset,
        bank(),
        "Seed round",
    );
    assert_eq!(err.err(), Some(Error::CommonStockCannotBePrepaid { description: "Seed round".to_string() }));
    let later = plan_common_stock(
        d(2024, 3, 1),
        d(2024, 2, 1),
        founder.clone(),
        CommonStockWhileUnpaid::ReceivableAsset,
        bank(),
        "Seed round",
    )
    .unwrap();
    assert_eq!(later.len(), 2);
    assert_eq!(
        later[0].postings[1].account.ledger(),
        Account::from(asset("SubscribedCapitalReceivable", AssetClassification::OtherCurrentAssets)).ledger()
    );
    assert!(balanced(&later));
}

#[test]
fn cost_of_equity_and_immaterial_expense() {
    let plan = plan_cost_of_equity(d(2024, 1, 1), d(2024, 1, 2), bank());
    assert_eq!(plan.len(), 2);
    assert_eq!(plan[0].comment.as_deref(), Some("Pre-paid share issuance costs"));
    assert!(balanced(&plan));
    let e: Account = expense("Snacks", ExpenseClassification::GeneralAdministrativeExpenses).into();
    let one = plan_immaterial_expense(d(2024, 1, 1), e.clone(), bank());
    assert_eq!(ledgers(&one[0]), vec![(bank().ledger(), Side::Credit), (e.ledger(), Side::Debit)]);
}

#[test]
fn clear_vat_refund_and_payment() {
    let (refund, checks) = plan_clear_vat(true, d(2024, 7, 25), d(2024, 1, 1), d(2024, 6, 30), bank());
    assert_eq!(refund.len(), 1);
    assert_eq!(refund[0].date, d(2024, 7, 25));
    assert_eq!(refund[0].comment.as_deref(), Some("Clear VAT receivable for 2024-01-01 - 2024-06-30"));
    assert_eq!(
        ledgers(&refund[0]),
        vec![
            ("Assets:Current:OtherCurrentAssets:VatReceivable".to_string(), Side::Credit),
            (bank().ledger(), Side::Debit),
        ]
    );
    assert_eq!(checks.len(), 2);
    assert_eq!(checks[0].date, d(2024, 6, 30));
    assert_eq!(checks[0].balance, BalanceShare::Whole);
    assert_eq!(checks[1].balance, BalanceShare::Zero);
    assert!(balanced(&refund));

    let (payment, checks) = plan_clear_vat(false, d(2024, 7, 25), d(2024, 1, 1), d(2024, 6, 30), bank());
    assert_eq!(payment[0].comment.as_deref(), Some("Clear VAT payable for 2024-01-01 - 2024-06-30"));
    assert_eq!(payment[0].postings[0].side, Side::Credit);
    assert_eq!(payment[0].postings[0].account.ledger(), bank().ledger());
    assert_eq!(
        payment[0].postings[1].account.ledger(),
        "Liabilities:Current:OtherCurrentLiabilities:VatPayable"
    );
    assert_eq!(checks[0].balance, BalanceShare::Zero);
    assert_eq!(checks[1].balance, BalanceShare::NegatedWhole);
    assert!(balanced(&payment));
}

#[test]
fn reimbursement_links_each_credit_to_what_it_stands_for() {
    let owner: Account = liability("Owner", LiabilityClassification::OtherCurrentLiabilities).into();
    let travel: Account = expense("Travel", ExpenseClassification::GeneralAdministrativeExpenses).into();
    let prepaid: Account = asset("Prepaid", AssetClassification::OtherCurrentAssets).into();
    let credits = vec![(owner.clone(), Some(travel.clone())), (prepaid.clone(), None)];
    let plan = plan_reimbursement(d(2024, 5, 1), bank(), owner.clone(), true, &credits, false, false).unwrap();
    assert_eq!(plan.date, d(2024, 5, 1));
    assert_eq!(plan.asserted_account, owner);
    assert!(!plan.remainder_expected);
    let postings: Vec<(Account, Option<Account>, ReimbursedPart)> =
        plan.postings.iter().map(|p| (p.account.clone(), p.source_account.clone(), p.part)).collect();
    assert_eq!(
        postings,
        vec![
            (bank(), None, ReimbursedPart::Paid),
            (owner.clone(), Some(travel), ReimbursedPart::Credit(0)),
            (owner.clone(), Some(prepaid), ReimbursedPart::Credit(1)),
        ]
    );
    let partial = plan_reimbursement(d(2024, 5, 1), bank(), owner.clone(), true, &credits, true, true).unwrap();
    assert!(partial.remainder_expected);
    assert_eq!(
        plan_reimbursement(d(2024, 5, 1), bank(), owner.clone(), true, &credits, false, true).unwrap_err(),
        ReimbursementRefusal::LeavesRemainder
    );
    assert_eq!(
        plan_reimbursement(d(2024, 5, 1), bank(), owner, false, &[], true, false).unwrap_err(),
        ReimbursementRefusal::NothingToReimburse
    );
}
