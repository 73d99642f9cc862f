use ifrs_hledger::account::{
    asset, expense, liability, Account, AssetClassification, ExpenseClassification,
    LiabilityClassification,
};
use ifrs_hledger::date::{monthly_accrual_periods, Date};
use ifrs_hledger::errors::Error;
use ifrs_hledger::monthly_plan::{
    amortization_account, plan_amortization, plan_fixed_expense, plan_variable_expense, Portion,
    PortionEntry,
};
use ifrs_hledger::posting_plan::Side;

fn d(y: i32, m: u32, dd: u32) -> Date {
    Date::from_ymd_opt(y, m, dd).unwrap()
}

fn parts(e: &PortionEntry) -> Vec<(String, Portion, Side)> {
    e.postings.iter().map(|p| (p.account.ledger(), p.portion, p.side)).collect()
}

#[test]
fn fixed_expense_routes_months_by_payment_date() {
    let rent: Account = expense("Rent", ExpenseClassification::GeneralAdministrativeExpenses).into();
    let pre: Account = asset("Rent", AssetClassification::PrepaidExpenses).into();
    let pay: Account = liability("Rent", LiabilityClassification::AccountsPayable).into();
    let bank: Account = asset("Bank", AssetClassification::CashAndCashEquivalents).into();
    let periods = monthly_accrual_periods(d(2024, 1, 15), d(2024, 3, 31)).unwrap();
    assert_eq!(periods.len(), 3);
    let plan = plan_fixed_expense(&periods, d(2024, 2, 10), rent.clone(), pre.clone(), pay.clone(), bank.clone());
    assert_eq!(plan.len(), 4);
    assert_eq!(plan[0].date, d(2024, 1, 31));
    assert_eq!(plan[0].comment, "Accrue fixed expense for 2024-01-15 - 2024-01-31");
    assert_eq!(
        parts(&plan[0]),
        vec![(pay.ledger(), Portion::Period(0), Side::Credit), (rent.ledger(), Portion::Period(0), Side::Debit)]
    );
    assert_eq!(plan[1].date, d(2024, 2, 29));
    assert_eq!(parts(&plan[1])[0], (pre.ledger(), Portion::Period(1), Side::Credit));
    assert_eq!(plan[2].date, d(2024, 3, 31));
    assert_eq!(plan[2].comment, "Accrue fixed expense for 2024-03-01 - 2024-03-31");
    assert_eq!(parts(&plan[2])[0], (pre.ledger(), Portion::Period(2), Side::Credit));
    assert_eq!(plan[3].date, d(2024, 2, 10));
    assert_eq!(plan[3].comment, "Clear / pre-pay fixed expense");
    assert_eq!(
        parts(&plan[3]),
        vec![
            (bank.ledger(), Portion::Whole, Side::Credit),
            (pre.ledger(), Portion::PrepaidPart, Side::Debit),
            (pay.ledger(), Portion::PayablePart, Side::Debit),
        ]
    );
    assert_eq!(plan[3].postings[1].source_account.as_ref().map(|a| a.ledger()), Some(rent.ledger()));
}

#[test]
fn fixed_expense_month_ending_on_payment_day_is_owed() {
    let rent: Account = expense("Rent", ExpenseClassification::GeneralAdministrativeExpenses).into();
    let pre: Account = asset("Rent", AssetClassification::PrepaidExpenses).into();
    let pay: Account = liability("Rent", LiabilityClassification::AccountsPayable).into();
    let bank: Account = asset("Bank", AssetClassification::CashAndCashEquivalents).into();
    let periods = monthly_accrual_periods(d(2024, 1, 1), d(2024, 1, 31)).unwrap();
    let plan = plan_fixed_expense(&periods, d(2024, 1, 31), rent, pre, pay.clone(), bank);
    assert_eq!(plan.len(), 2);
    assert_eq!(parts(&plan[0])[0].0, pay.ledger());
}

#[test]
fn amortization_books_each_month_once() {
    let software: Account = asset("Software", AssetClassification::IntangibleAssets).into();
    let amort: Account = expense("Software", ExpenseClassification::AmortizationExpense).into();
    let periods = monthly_accrual_periods(d(2024, 11, 1), d(2025, 1, 31)).unwrap();
    let plan = plan_amortization(&periods, software.clone(), amort.clone());
    assert_eq!(plan.len(), 3);
    for (k, e) in plan.iter().enumerate() {
        assert_eq!(
            parts(e),
            vec![(software.ledger(), Portion::Period(k), Side::Credit), (amort.ledger(), Portion::Period(k), Side::Debit)]
        );
    }
    assert_eq!(plan[2].date, d(2025, 1, 31));
    assert_eq!(plan[1].comment, "Amortization adjustment for 2024-12-01 - 2024-12-31");
}

#[test]
fn amortization_needs_an_expense_account() {
    let e = amortization_account(None, "Laptop").unwrap_err();
    assert_eq!(e, Error::NonAmortizableAsset { description: "Laptop".to_string() });
    let a = expense("Laptop", ExpenseClassification::DepreciationExpense);
    assert_eq!(amortization_account(Some(a.clone()), "Laptop").unwrap(), a);
}

#[test]
fn variable_expense_estimates_then_corrects_and_clears() {
    let power: Account = expense("Power", ExpenseClassification::GeneralAdministrativeExpenses).into();
    let pay: Account = liability("Power", LiabilityClassification::AccountsPayable).into();
    let bank: Account = asset("Bank", AssetClassification::CashAndCashEquivalents).into();
    let periods = monthly_accrual_periods(d(2024, 4, 1), d(2024, 5, 31)).unwrap();
    let plan = plan_variable_expense(
        12, "Power bill", &periods, d(2024, 5, 31), d(2024, 6, 10), power.clone(), pay.clone(), bank.clone(), true,
    )
    .unwrap();
    assert_eq!(plan.len(), 4);
    assert_eq!(plan[0].comment, "Estimated expense accrual for 2024-04-01 - 2024-04-30");
    assert_eq!(
        parts(&plan[1]),
        vec![(pay.ledger(), Portion::Period(1), Side::Credit), (power.ledger(), Portion::Period(1), Side::Debit)]
    );
    assert_eq!(plan[2].comment, "Correct estimate discrepancy");
    assert_eq!(plan[2].date, d(2024, 6, 10));
    assert_eq!(parts(&plan[2])[0].1, Portion::Discrepancy);
    assert_eq!(plan[3].comment, "Clear payable expense");
    assert_eq!(
        parts(&plan[3]),
        vec![(bank.ledger(), Portion::Whole, Side::Credit), (pay.ledger(), Portion::Whole, Side::Debit)]
    );
    let exact = plan_variable_expense(
        12, "Power bill", &periods, d(2024, 5, 31), d(2024, 6, 10), power, pay, bank, false,
    )
    .unwrap();
    assert_eq!(exact.len(), 3);
}

#[test]
fn variable_expense_paid_within_accrual_is_refused() {
    let power: Account = expense("Power", ExpenseClassification::GeneralAdministrativeExpenses).into();
    let pay: Account = liability("Power", LiabilityClassification::AccountsPayable).into();
    let bank: Account = asset("Bank", AssetClassification::CashAndCashEquivalents).into();
    let periods = monthly_accrual_periods(d(2024, 4, 1), d(2024, 5, 31)).unwrap();
    let e = plan_variable_expense(7, "Power bill", &periods, d(2024, 5, 31), d(2024, 5, 31), power, pay, bank, true)
        .unwrap_err();
    assert_eq!(
        e,
        Error::VariableExpenseInvalidPaymentDate {
            id: 7,
            description: "Power bill".to_string(),
            payment_date: d(2024, 5, 31),
            until_date: d(2024, 5, 31),
        }
    );
}
